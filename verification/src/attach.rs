//! Decisions of an attached client that need no terminal: which pane a click
//! lands on, the pane listing and its message, and when to redraw next.
//! Times are milliseconds counted from any fixed origin.

use vstd::prelude::*;
use vstd::string::*;
use crate::frames::AttachPaneRegion;
use crate::text::{
    chars_of, decimal, find_char, find_char_index, join, lines_of, parse_unsigned,
    parse_usize_chars, sub_chars, text_lines, usize_string,
};

verus! {

/// Where the mouse was pressed, in one-based terminal cells.
#[derive(Clone, Copy, Debug, PartialEq, Eq, Structural)]
pub struct MousePosition {
    pub col: u16,
    pub row: u16,
}

/// Whether a region holds the zero-based cell `(row, col)`.
pub open spec fn region_holds(g: AttachPaneRegion, row: int, col: int) -> bool {
    g.row_start <= row < g.row_end && g.col_start <= col < g.col_end
}

/// The pane under a mouse position: the first region that holds the cell
/// once the header rows are taken off; none for a cell in the header.
pub open spec fn pane_at_spec(regions: Seq<AttachPaneRegion>, header_rows: nat, position: MousePosition) -> Option<usize> {
    let row = position.row - 1 - header_rows;
    let col = position.col - 1;
    if row < 0 || col < 0 {
        None
    } else if exists|i: int| 0 <= i < regions.len() && region_holds(regions[i], row, col) {
        let i = choose|i: int|
            0 <= i < regions.len() && region_holds(regions[i], row, col) && forall|j: int|
                0 <= j < i ==> !region_holds(regions[j], row, col);
        Some(regions[i].pane)
    } else {
        None
    }
}

/// The pane under a mouse position.
pub fn pane_at_mouse_position(
    regions: &[AttachPaneRegion],
    header_rows: usize,
    position: MousePosition,
) -> (r: Option<usize>)
    ensures
        r == pane_at_spec(regions@, header_rows as nat, position),
{
    let prow = position.row as usize;
    let pcol = position.col as usize;
    if prow < 1 || prow - 1 < header_rows || pcol < 1 {
        return None;
    }
    let row = prow - 1 - header_rows;
    let col = pcol - 1;
    let mut i: usize = 0;
    while i < regions.len()
        invariant
            i <= regions@.len(),
            row == position.row - 1 - header_rows,
            col == position.col - 1,
            forall|j: int| 0 <= j < i ==> !region_holds(regions@[j], row as int, col as int),
        decreases regions.len() - i,
    {
        let g = regions[i];
        if row >= g.row_start && row < g.row_end && col >= g.col_start && col < g.col_end {
            proof {
                let k = choose|k: int|
                    0 <= k < regions@.len() && region_holds(regions@[k], row as int, col as int)
                        && forall|j: int| 0 <= j < k ==> !region_holds(regions@[j], row as int, col as int);
                assert(region_holds(regions@[i as int], row as int, col as int));
                if k < i {
                    assert(!region_holds(regions@[k], row as int, col as int));
                }
                if k > i {
                    assert(!region_holds(regions@[i as int], row as int, col as int));
                }
            }
            return Some(g.pane);
        }
        i += 1;
    }
    None
}

/// A pane of a listing: its index and whether it is the active one.
#[derive(Clone, Copy, Debug, PartialEq, Eq, Structural)]
pub struct PaneListEntry {
    pub index: usize,
    pub active: bool,
}

/// The entry one line of a listing (`<index>\t<0|1>`) gives.
pub open spec fn pane_line_spec(line: Seq<char>) -> Result<PaneListEntry, Seq<char>> {
    match find_char(line, '\t') {
        None => Err("invalid pane listing"@),
        Some(i) => match parse_unsigned(line.take(i), usize::MAX as nat) {
            None => Err("invalid pane index"@),
            Some(index) => {
                let flag = line.skip(i + 1);
                if flag == "0"@ {
                    Ok(PaneListEntry { index: index as usize, active: false })
                } else if flag == "1"@ {
                    Ok(PaneListEntry { index: index as usize, active: true })
                } else {
                    Err("invalid active pane flag"@)
                }
            },
        },
    }
}

/// The entries of a listing's lines, or the first line's error.
pub open spec fn pane_lines_spec(lines: Seq<Seq<char>>) -> Result<Seq<PaneListEntry>, Seq<char>>
    decreases lines.len(),
{
    if lines.len() == 0 {
        Ok(Seq::empty())
    } else {
        match pane_lines_spec(lines.drop_last()) {
            Err(e) => Err(e),
            Ok(entries) => match pane_line_spec(lines.last()) {
                Err(e) => Err(e),
                Ok(entry) => Ok(entries.push(entry)),
            },
        }
    }
}

fn parse_pane_line(line: &[char]) -> (r: Result<PaneListEntry, String>)
    ensures
        match pane_line_spec(line@) {
            Ok(e) => r == Ok::<PaneListEntry, String>(e),
            Err(e) => r matches Err(m) && m@ == e,
        },
{
    let i = match find_char_index(line, '\t') {
        Some(i) => i,
        None => return Err(String::from_str("invalid pane listing")),
    };
    let head = sub_chars(line, 0, i);
    let flag = sub_chars(line, i + 1, line.len());
    assert(head@ == line@.take(i as int));
    assert(flag@ == line@.skip(i + 1));
    let index = match parse_usize_chars(head.as_slice()) {
        Some(n) => n,
        None => return Err(String::from_str("invalid pane index")),
    };
    if crate::text::chars_eq_str(flag.as_slice(), "0") {
        Ok(PaneListEntry { index, active: false })
    } else if crate::text::chars_eq_str(flag.as_slice(), "1") {
        Ok(PaneListEntry { index, active: true })
    } else {
        Err(String::from_str("invalid active pane flag"))
    }
}

/// Reads a pane listing: one `<index>\t<0|1>` line per pane.
pub fn parse_pane_listing(listing: &str) -> (r: Result<Vec<PaneListEntry>, String>)
    ensures
        match pane_lines_spec(text_lines(listing@)) {
            Ok(entries) => r matches Ok(v) && v@ == entries,
            Err(e) => r matches Err(m) && m@ == e,
        },
{
    let chars = chars_of(listing);
    let lines = lines_of(&chars);
    let ghost ls = text_lines(listing@);
    let mut entries: Vec<PaneListEntry> = Vec::new();
    let mut k: usize = 0;
    while k < lines.len()
        invariant
            k <= lines@.len() == ls.len(),
            ls == text_lines(listing@),
            forall|j: int| 0 <= j < lines@.len() ==> (#[trigger] lines@[j])@ == ls[j],
            pane_lines_spec(ls.take(k as int)) == Ok::<Seq<PaneListEntry>, Seq<char>>(entries@),
        decreases lines.len() - k,
    {
        assert(ls.take(k + 1).drop_last() =~= ls.take(k as int));
        assert(ls.take(k + 1).last() == lines@[k as int]@);
        let entry = match parse_pane_line(lines[k].as_slice()) {
            Ok(e) => e,
            Err(m) => {
                proof {
                    lemma_pane_lines_err(ls, (k + 1) as int, m@);
                }
                return Err(m);
            },
        };
        entries.push(entry);
        k += 1;
    }
    assert(ls.take(k as int) =~= ls);
    Ok(entries)
}

/// Once a prefix of the lines fails, the whole listing fails with the same
/// message.
proof fn lemma_pane_lines_err(lines: Seq<Seq<char>>, k: int, e: Seq<char>)
    requires
        0 <= k <= lines.len(),
        pane_lines_spec(lines.take(k)) == Err::<Seq<PaneListEntry>, Seq<char>>(e),
    ensures
        pane_lines_spec(lines) == Err::<Seq<PaneListEntry>, Seq<char>>(e),
    decreases lines.len() - k,
{
    if k < lines.len() {
        assert(lines.take(k + 1).drop_last() =~= lines.take(k));
        lemma_pane_lines_err(lines, k + 1, e);
    } else {
        assert(lines.take(k) =~= lines);
    }
}

/// The pane after the active one, wrapping at the end of the listing.
pub open spec fn next_pane_spec(entries: Seq<PaneListEntry>) -> Result<usize, Seq<char>> {
    if entries.len() == 0 {
        Err("missing pane"@)
    } else if exists|i: int| 0 <= i < entries.len() && entries[i].active {
        let a = choose|i: int|
            0 <= i < entries.len() && entries[i].active && forall|j: int|
                0 <= j < i ==> !entries[j].active;
        Ok(entries[(a + 1) % (entries.len() as int)].index)
    } else {
        Err("missing active pane"@)
    }
}

/// The index of the pane after the active one.
pub fn next_pane_index_from_entries(entries: &[PaneListEntry]) -> (r: Result<usize, String>)
    ensures
        match next_pane_spec(entries@) {
            Ok(n) => r == Ok::<usize, String>(n),
            Err(e) => r matches Err(m) && m@ == e,
        },
{
    if entries.len() == 0 {
        return Err(String::from_str("missing pane"));
    }
    let mut i: usize = 0;
    while i < entries.len()
        invariant
            i <= entries@.len(),
            forall|j: int| 0 <= j < i ==> !entries@[j].active,
        decreases entries.len() - i,
    {
        if entries[i].active {
            proof {
                let a = choose|a: int|
                    0 <= a < entries@.len() && entries@[a].active && forall|j: int|
                        0 <= j < a ==> !entries@[j].active;
                assert(entries@[i as int].active);
                if a < i {
                    assert(!entries@[a].active);
                }
                if a > i {
                    assert(!entries@[i as int].active);
                }
            }
            let next = (i + 1) % entries.len();
            return Ok(entries[next].index);
        }
        i += 1;
    }
    Err(String::from_str("missing active pane"))
}

/// The index of the pane after the active one of a listing.
pub fn next_pane_index_from_listing(listing: &str) -> (r: Result<usize, String>)
    ensures
        match pane_lines_spec(text_lines(listing@)) {
            Err(e) => r matches Err(m) && m@ == e,
            Ok(entries) => match next_pane_spec(entries) {
                Ok(n) => r == Ok::<usize, String>(n),
                Err(e) => r matches Err(m) && m@ == e,
            },
        },
{
    let entries = parse_pane_listing(listing)?;
    next_pane_index_from_entries(entries.as_slice())
}

/// How an entry stands in the pane-number message: its index, in brackets
/// when it is the active pane.
pub open spec fn pane_label(e: PaneListEntry) -> Seq<char> {
    if e.active {
        "["@ + decimal(e.index as nat) + "]"@
    } else {
        decimal(e.index as nat)
    }
}

/// The message that shows the pane numbers.
pub open spec fn pane_number_message_spec(entries: Seq<PaneListEntry>) -> Seq<char> {
    "panes: "@ + join(entries.map_values(|e: PaneListEntry| pane_label(e)), ' ')
}

/// The message that shows the pane numbers, the active one in brackets.
pub fn format_pane_number_message(entries: &[PaneListEntry]) -> (r: String)
    ensures
        r@ == pane_number_message_spec(entries@),
{
    let ghost labels = entries@.map_values(|e: PaneListEntry| pane_label(e));
    let mut joined = String::new();
    let mut k: usize = 0;
    while k < entries.len()
        invariant
            k <= entries@.len(),
            labels == entries@.map_values(|e: PaneListEntry| pane_label(e)),
            joined@ == join(labels.take(k as int), ' '),
        decreases entries.len() - k,
    {
        let e = entries[k];
        let label = if e.active {
            let mut l = String::from_str("[");
            let n = usize_string(e.index);
            l.append(n.as_str());
            l.append("]");
            l
        } else {
            usize_string(e.index)
        };
        proof {
            reveal_strlit("[");
            reveal_strlit("]");
            reveal_strlit(" ");
            assert(label@ == pane_label(e));
            assert(labels.take(k + 1).drop_last() =~= labels.take(k as int));
            assert(labels.take(k + 1).last() == label@);
            if k == 0 {
                assert(labels.take(1) =~= seq![label@]);
            }
        }
        if k > 0 {
            joined.append(" ");
        }
        joined.append(label.as_str());
        k += 1;
    }
    proof {
        assert(labels.take(k as int) =~= labels);
    }
    let mut out = String::from_str("panes: ");
    out.append(joined.as_str());
    out
}

/// Whether a listing has a pane with the given index.
pub fn pane_index_exists(entries: &[PaneListEntry], index: usize) -> (r: bool)
    ensures
        r == exists|i: int| 0 <= i < entries@.len() && entries@[i].index == index,
{
    let mut i: usize = 0;
    while i < entries.len()
        invariant
            i <= entries@.len(),
            forall|j: int| 0 <= j < i ==> entries@[j].index != index,
        decreases entries.len() - i,
    {
        if entries[i].index == index {
            return true;
        }
        i += 1;
    }
    false
}

/// How long to wait between redraws when no event stream drives them.
pub const LIVE_SNAPSHOT_REDRAW_INTERVAL_MS: u64 = 100;

/// How long to wait between safety redraws while events drive redraws.
pub const LIVE_SNAPSHOT_EVENT_SAFETY_REDRAW_INTERVAL_MS: u64 = 1000;

/// How long a pending deadline leaves before the next redraw: `None` when
/// it has passed.
pub open spec fn time_left(deadline: u64, now: u64) -> Option<u64> {
    if deadline <= now {
        None
    } else {
        Some((deadline - now) as u64)
    }
}

/// How long a live client waits before its next redraw: the base interval
/// of its mode, shortened to a message's expiry or a repaint deadline, and
/// zero once one of them has passed; while redraws are paused, the base.
pub open spec fn redraw_timeout_spec(
    event_stream_active: bool,
    redraw_paused: bool,
    message_expiry: Option<u64>,
    input_repaint_deadline: Option<u64>,
    now: u64,
) -> u64 {
    let base = if event_stream_active {
        LIVE_SNAPSHOT_EVENT_SAFETY_REDRAW_INTERVAL_MS
    } else {
        LIVE_SNAPSHOT_REDRAW_INTERVAL_MS
    };
    if redraw_paused {
        base
    } else {
        let after_message = match message_expiry {
            None => Some(base),
            Some(t) => match time_left(t, now) {
                None => None,
                Some(d) => Some(if d < base { d } else { base }),
            },
        };
        match after_message {
            None => 0,
            Some(m) => match input_repaint_deadline {
                None => m,
                Some(t) => match time_left(t, now) {
                    None => 0,
                    Some(d) => if d < m { d } else { m },
                },
            },
        }
    }
}

/// How long to wait before the next redraw, in milliseconds.
pub fn live_snapshot_redraw_timeout(
    event_stream_active: bool,
    redraw_paused: bool,
    message_expiry: Option<u64>,
    input_repaint_deadline: Option<u64>,
    now: u64,
) -> (r: u64)
    ensures
        r == redraw_timeout_spec(
            event_stream_active,
            redraw_paused,
            message_expiry,
            input_repaint_deadline,
            now,
        ),
{
    let base = if event_stream_active {
        LIVE_SNAPSHOT_EVENT_SAFETY_REDRAW_INTERVAL_MS
    } else {
        LIVE_SNAPSHOT_REDRAW_INTERVAL_MS
    };
    if redraw_paused {
        return base;
    }
    let mut timeout = base;
    if let Some(expiry) = message_expiry {
        if expiry <= now {
            return 0;
        }
        let d = expiry - now;
        if d < timeout {
            timeout = d;
        }
    }
    if let Some(deadline) = input_repaint_deadline {
        if deadline <= now {
            return 0;
        }
        let d = deadline - now;
        if d < timeout {
            timeout = d;
        }
    }
    timeout
}

/// A render stream that answered leaves the safety timeout as it was: the
/// answer shows the stream connected, not that frames flow.
pub fn handle_render_stream_ready(event_stream_active: &mut bool)
    ensures
        *final(event_stream_active) == *old(event_stream_active),
{
}

/// A frame that arrived shows that events drive redraws.
pub fn handle_render_frame_received(event_stream_active: &mut bool)
    ensures
        *final(event_stream_active),
{
    *event_stream_active = true;
}

/// The message a live client shows: the command prompt's, else the pane
/// numbers until they expire. An expired pane-number message is dropped.
pub fn active_live_message(
    pane_number_message: &mut Option<(String, u64)>,
    command_prompt_message: Option<String>,
    now: u64,
) -> (r: Option<String>)
    ensures
        match *old(pane_number_message) {
            Some((m, until)) => if now >= until {
                *final(pane_number_message) is None
            } else {
                *final(pane_number_message) == Some((m, until))
            },
            None => *final(pane_number_message) is None,
        },
        match command_prompt_message {
            Some(c) => r == Some(c),
            None => match *final(pane_number_message) {
                Some((m, _)) => r matches Some(s) && s@ == m@,
                None => r is None,
            },
        },
{
    let expired = match pane_number_message {
        Some((_, until)) => now >= *until,
        None => false,
    };
    if expired {
        *pane_number_message = None;
    }
    match command_prompt_message {
        Some(c) => Some(c),
        None => match pane_number_message {
            Some((m, _)) => Some(m.clone()),
            None => None,
        },
    }
}

} // verus!
