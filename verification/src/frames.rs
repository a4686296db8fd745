//! What an attached client reads from the server: the attach reply, the
//! pane regions and snapshot of a layout, render frames, event lines and
//! terminal sizes.

use vstd::prelude::*;
use vstd::string::*;
use vstd::utf8::{decode_utf8, valid_utf8};
use crate::config::{split_words, words};
use crate::git::{has_prefix, strip_prefix_chars};
use crate::text::{
    chars_of, debug_quote, debug_quoted, find_char, find_char_index, parse_unsigned,
    parse_unsigned_chars, split, split_chars, string_from_utf8, sub_chars,
};

verus! {

/// A terminal's size in character cells.
#[derive(Clone, Copy, Debug, PartialEq, Eq, Structural)]
pub struct PtySize {
    pub cols: u16,
    pub rows: u16,
}

impl PtySize {
    /// A size of at least one column and one row.
    pub fn new(cols: u16, rows: u16) -> (r: Result<PtySize, String>)
        ensures
            r is Ok <==> cols > 0 && rows > 0,
            r matches Ok(s) ==> s == (PtySize { cols, rows }),
            r matches Err(e) ==> e@ == "terminal size must be non-zero"@,
    {
        if cols == 0 || rows == 0 {
            Err(String::from_str("terminal size must be non-zero"))
        } else {
            Ok(PtySize { cols, rows })
        }
    }
}

/// The size that [`PtySize::new`] gives, or its error.
pub open spec fn pty_size_spec(cols: nat, rows: nat) -> Result<PtySize, Seq<char>> {
    if cols > 0 && rows > 0 {
        Ok(PtySize { cols: cols as u16, rows: rows as u16 })
    } else {
        Err("terminal size must be non-zero"@)
    }
}

/// A `u16` as std's `FromStr` reads it.
pub open spec fn parse_u16(s: Seq<char>) -> Option<nat> {
    parse_unsigned(s, u16::MAX as nat)
}

/// What an override of the form `<cols>x<rows>` gives.
pub open spec fn attach_size_spec(value: Seq<char>) -> Result<PtySize, Seq<char>> {
    match find_char(value, 'x') {
        None => Err("expected <cols>x<rows>"@),
        Some(i) => match parse_u16(value.take(i)) {
            None => Err("invalid columns"@),
            Some(cols) => match parse_u16(value.skip(i + 1)) {
                None => Err("invalid rows"@),
                Some(rows) => pty_size_spec(cols, rows),
            },
        },
    }
}

/// Reads a terminal size written `<cols>x<rows>`.
pub fn parse_attach_size(value: &str) -> (r: Result<PtySize, String>)
    ensures
        match attach_size_spec(value@) {
            Ok(s) => r == Ok::<PtySize, String>(s),
            Err(e) => r matches Err(m) && m@ == e,
        },
{
    let v = chars_of(value);
    let i = match find_char_index(v.as_slice(), 'x') {
        Some(i) => i,
        None => return Err(String::from_str("expected <cols>x<rows>")),
    };
    let head = sub_chars(v.as_slice(), 0, i);
    let tail = sub_chars(v.as_slice(), i + 1, v.len());
    assert(head@ == value@.take(i as int));
    assert(tail@ == value@.skip(i + 1));
    let cols = match parse_unsigned_chars(head.as_slice(), 65535) {
        Some(c) => c as u16,
        None => return Err(String::from_str("invalid columns")),
    };
    let rows = match parse_unsigned_chars(tail.as_slice(), 65535) {
        Some(r) => r as u16,
        None => return Err(String::from_str("invalid rows")),
    };
    PtySize::new(cols, rows)
}

/// What the output of `stty size` (rows, then columns) gives.
pub open spec fn stty_size_spec(value: Seq<char>) -> Result<PtySize, Seq<char>> {
    let w = words(value);
    if w.len() < 1 {
        Err("missing rows"@)
    } else {
        match parse_u16(w[0]) {
            None => Err("invalid rows"@),
            Some(rows) => if w.len() < 2 {
                Err("missing columns"@)
            } else {
                match parse_u16(w[1]) {
                    None => Err("invalid columns"@),
                    Some(cols) => if w.len() > 2 {
                        Err("unexpected extra size fields"@)
                    } else {
                        pty_size_spec(cols, rows)
                    },
                }
            },
        }
    }
}

/// Reads the output of `stty size`: rows, then columns.
pub fn parse_stty_size(value: &str) -> (r: Result<PtySize, String>)
    ensures
        match stty_size_spec(value@) {
            Ok(s) => r == Ok::<PtySize, String>(s),
            Err(e) => r matches Err(m) && m@ == e,
        },
{
    let v = chars_of(value);
    let w = split_words(v.as_slice());
    if w.len() < 1 {
        return Err(String::from_str("missing rows"));
    }
    let rows = match parse_unsigned_chars(w[0].as_slice(), 65535) {
        Some(r) => r as u16,
        None => return Err(String::from_str("invalid rows")),
    };
    if w.len() < 2 {
        return Err(String::from_str("missing columns"));
    }
    let cols = match parse_unsigned_chars(w[1].as_slice(), 65535) {
        Some(c) => c as u16,
        None => return Err(String::from_str("invalid columns")),
    };
    if w.len() > 2 {
        return Err(String::from_str("unexpected extra size fields"));
    }
    PtySize::new(cols, rows)
}

/// Calls `emit` with the current size when there is one and it differs from
/// the last size emitted, and then records it as the last.
pub fn maybe_emit_resize<F>(
    current: Option<PtySize>,
    last: &mut Option<PtySize>,
    emit: F,
) -> (r: Result<(), String>) where F: FnOnce(PtySize) -> Result<(), String>
    requires
        forall|s: PtySize| call_requires(emit, (s,)),
    ensures
        match current {
            None => r is Ok && *final(last) == *old(last),
            Some(size) => if *old(last) == Some(size) {
                r is Ok && *final(last) == *old(last)
            } else {
                exists|e: Result<(), String>| #[trigger]
                    call_ensures(emit, (size,), e) && ({
                        &&& r == e
                        &&& (e is Ok ==> *final(last) == Some(size))
                        &&& (e is Err ==> *final(last) == *old(last))
                    })
            },
        },
{
    let size = match current {
        Some(s) => s,
        None => return Ok(()),
    };
    let same = match *last {
        Some(l) => l == size,
        None => false,
    };
    if same {
        return Ok(());
    }
    let e = emit(size);
    if e.is_ok() {
        *last = Some(size);
    }
    e
}

/// How the server answered an attach request.
#[derive(Clone, Copy, Debug, PartialEq, Eq, Structural)]
pub enum AttachMode {
    Live { raw_layout_epoch: u64 },
    Snapshot,
}

/// The attach mode a reply names.
pub open spec fn attach_ok_spec(response: Seq<char>) -> Result<AttachMode, Seq<char>> {
    if response == "OK\n"@ {
        Ok(AttachMode::Live { raw_layout_epoch: 0 })
    } else if response == "OK\tSNAPSHOT\n"@ {
        Ok(AttachMode::Snapshot)
    } else if has_prefix(response, "OK\tLIVE\t"@) && response.len() > "OK\tLIVE\t"@.len()
        && response.last() == '\n' {
        let epoch = response.subrange("OK\tLIVE\t"@.len() as int, response.len() - 1);
        match parse_unsigned(epoch, u64::MAX as nat) {
            Some(n) => Ok(AttachMode::Live { raw_layout_epoch: n as u64 }),
            None => Err("invalid raw attach layout epoch"@),
        }
    } else {
        Err("unexpected server response: "@ + debug_quoted(response))
    }
}

/// Reads the server's reply to an attach request.
pub fn parse_attach_ok(response: &str) -> (r: Result<AttachMode, String>)
    ensures
        match attach_ok_spec(response@) {
            Ok(m) => r == Ok::<AttachMode, String>(m),
            Err(e) => r matches Err(m) && m@ == e,
        },
{
    let v = chars_of(response);
    proof {
        reveal_strlit("OK\tLIVE\t");
    }
    if crate::text::chars_eq_str(v.as_slice(), "OK\n") {
        return Ok(AttachMode::Live { raw_layout_epoch: 0 });
    }
    if crate::text::chars_eq_str(v.as_slice(), "OK\tSNAPSHOT\n") {
        return Ok(AttachMode::Snapshot);
    }
    match strip_prefix_chars(v.as_slice(), "OK\tLIVE\t") {
        Some(rest) => {
            if rest.len() > 0 && rest[rest.len() - 1] == '\n' {
                let epoch = sub_chars(rest.as_slice(), 0, rest.len() - 1);
                assert(epoch@ == response@.subrange(8, response@.len() - 1));
                return match parse_unsigned_chars(epoch.as_slice(), u64::MAX) {
                    Some(n) => Ok(AttachMode::Live { raw_layout_epoch: n }),
                    None => Err(String::from_str("invalid raw attach layout epoch")),
                };
            }
        },
        None => {},
    }
    let mut m = String::from_str("unexpected server response: ");
    let q = debug_quote(response);
    m.append(q.as_str());
    Err(m)
}

/// The event the server sends on an attach event stream.
#[derive(Clone, Copy, Debug, PartialEq, Eq, Structural)]
pub enum LiveSnapshotServerEvent {
    Redraw,
}

/// Reads one line of an attach event stream.
pub fn parse_live_snapshot_event_line(line: &str) -> (r: Result<LiveSnapshotServerEvent, String>)
    ensures
        line@ == "REDRAW\n"@ ==> r == Ok::<LiveSnapshotServerEvent, String>(
            LiveSnapshotServerEvent::Redraw,
        ),
        line@ != "REDRAW\n"@ ==> (r matches Err(m) && m@ == "unknown attach event"@),
{
    if crate::text::str_eq(line, "REDRAW\n") {
        Ok(LiveSnapshotServerEvent::Redraw)
    } else {
        Err(String::from_str("unknown attach event"))
    }
}

/// The first place at or after which `b` occurs in `s`.
pub open spec fn find_byte(s: Seq<u8>, b: u8) -> Option<int> {
    if exists|i: int| 0 <= i < s.len() && s[i] == b {
        Some(choose|i: int| 0 <= i < s.len() && s[i] == b && forall|j: int| 0 <= j < i ==> s[j] != b)
    } else {
        None
    }
}

/// The first occurrence is unique: an index holding `b` with no `b` before
/// it is the one `find_byte` names.
pub proof fn lemma_find_byte_is(s: Seq<u8>, b: u8, i: int)
    requires
        0 <= i < s.len(),
        s[i] == b,
        forall|j: int| 0 <= j < i ==> s[j] != b,
    ensures
        find_byte(s, b) == Some(i),
{
    let k = choose|k: int| 0 <= k < s.len() && s[k] == b && forall|j: int| 0 <= j < k ==> s[j] != b;
    assert(0 <= k < s.len() && s[k] == b && forall|j: int| 0 <= j < k ==> s[j] != b);
    if k < i {
        assert(s[k] != b);
    }
    if i < k {
        assert(s[i] != b);
    }
}

/// The line of a reply body that starts at `cursor`: its text up to the next
/// newline, and where the line after it starts.
pub open spec fn body_line_spec(body: Seq<u8>, cursor: int) -> Result<(Seq<char>, int), Seq<char>> {
    let rest = body.skip(cursor);
    match find_byte(rest, 10) {
        None => Err("missing response line"@),
        Some(k) => if valid_utf8(rest.take(k)) {
            Ok((decode_utf8(rest.take(k)), cursor + k + 1))
        } else {
            Err("non-utf8 response line"@)
        },
    }
}

/// Reads the line of a reply body that starts at `*cursor` and moves the
/// cursor past its newline.
pub fn read_body_line(body: &[u8], cursor: &mut usize) -> (r: Result<String, String>)
    requires
        *old(cursor) <= body@.len(),
    ensures
        match body_line_spec(body@, *old(cursor) as int) {
            Ok((line, next)) => r matches Ok(l) && l@ == line && *final(cursor) == next,
            Err(e) => r matches Err(m) && m@ == e && *final(cursor) == *old(cursor),
        },
        *final(cursor) <= body@.len(),
{
    let start = *cursor;
    let ghost rest = body@.skip(start as int);
    let mut i = start;
    while i < body.len() && body[i] != 10u8
        invariant
            start <= i <= body@.len(),
            rest == body@.skip(start as int),
            forall|j: int| start <= j < i ==> body@[j] != 10u8,
        decreases body.len() - i,
    {
        i += 1;
    }
    if i == body.len() {
        assert forall|j: int| 0 <= j < rest.len() implies rest[j] != 10u8 by {
            assert(rest[j] == body@[start + j]);
        }
        return Err(String::from_str("missing response line"));
    }
    proof {
        assert forall|j: int| 0 <= j < i - start implies rest[j] != 10u8 by {
            assert(rest[j] == body@[start + j]);
        }
        lemma_find_byte_is(rest, 10u8, i - start);
    }
    let mut line: Vec<u8> = Vec::new();
    let mut k = start;
    while k < i
        invariant
            start <= k <= i < body@.len(),
            line@ == body@.subrange(start as int, k as int),
        decreases i - k,
    {
        line.push(body[k]);
        k += 1;
    }
    assert(line@ == rest.take(i - start));
    match string_from_utf8(line) {
        Some(text) => {
            *cursor = i + 1;
            Ok(text)
        },
        None => Err(String::from_str("non-utf8 response line")),
    }
}

/// Where a pane stands on screen: its rows and columns, ends excluded.
#[derive(Clone, Copy, Debug, PartialEq, Eq, Structural)]
pub struct AttachPaneRegion {
    pub pane: usize,
    pub row_start: usize,
    pub row_end: usize,
    pub col_start: usize,
    pub col_end: usize,
}

/// A field of a region line as a `usize`, or the message for it.
pub open spec fn region_field(value: Seq<char>, message: Seq<char>) -> Result<usize, Seq<char>> {
    match parse_unsigned(value, usize::MAX as nat) {
        Some(n) => Ok(n as usize),
        None => Err(message),
    }
}

/// The region a `REGION` line describes.
pub open spec fn region_spec(line: Seq<char>) -> Result<AttachPaneRegion, Seq<char>> {
    let p = split(line, '\t');
    if p.len() == 6 && p[0] == "REGION"@ {
        match region_field(p[1], "invalid region pane"@) {
            Err(e) => Err(e),
            Ok(pane) => match region_field(p[2], "invalid region row start"@) {
                Err(e) => Err(e),
                Ok(row_start) => match region_field(p[3], "invalid region row end"@) {
                    Err(e) => Err(e),
                    Ok(row_end) => match region_field(p[4], "invalid region col start"@) {
                        Err(e) => Err(e),
                        Ok(col_start) => match region_field(p[5], "invalid region col end"@) {
                            Err(e) => Err(e),
                            Ok(col_end) => Ok(
                                AttachPaneRegion { pane, row_start, row_end, col_start, col_end },
                            ),
                        },
                    },
                },
            },
        }
    } else {
        Err("invalid region line"@)
    }
}

fn parse_region_field(value: &[char], message: &str) -> (r: Result<usize, String>)
    ensures
        match region_field(value@, message@) {
            Ok(n) => r == Ok::<usize, String>(n),
            Err(e) => r matches Err(m) && m@ == e,
        },
{
    match crate::text::parse_usize_chars(value) {
        Some(n) => Ok(n),
        None => Err(String::from_str(message)),
    }
}

/// Reads a `REGION` line of a layout reply.
pub fn parse_attach_pane_region(line: &str) -> (r: Result<AttachPaneRegion, String>)
    ensures
        match region_spec(line@) {
            Ok(g) => r == Ok::<AttachPaneRegion, String>(g),
            Err(e) => r matches Err(m) && m@ == e,
        },
{
    let v = chars_of(line);
    let p = split_chars(v.as_slice(), '\t');
    if !(p.len() == 6 && crate::text::chars_eq_str(p[0].as_slice(), "REGION")) {
        return Err(String::from_str("invalid region line"));
    }
    let pane = parse_region_field(p[1].as_slice(), "invalid region pane")?;
    let row_start = parse_region_field(p[2].as_slice(), "invalid region row start")?;
    let row_end = parse_region_field(p[3].as_slice(), "invalid region row end")?;
    let col_start = parse_region_field(p[4].as_slice(), "invalid region col start")?;
    let col_end = parse_region_field(p[5].as_slice(), "invalid region col end")?;
    Ok(AttachPaneRegion { pane, row_start, row_end, col_start, col_end })
}

/// `count` region lines of a body from `cursor` on: the regions and where
/// the body goes on after them.
pub open spec fn regions_spec(body: Seq<u8>, cursor: int, count: nat) -> Result<
    (Seq<AttachPaneRegion>, int),
    Seq<char>,
>
    decreases count,
{
    if count == 0 {
        Ok((Seq::empty(), cursor))
    } else {
        match body_line_spec(body, cursor) {
            Err(e) => Err(e),
            Ok((line, next)) => match region_spec(line) {
                Err(e) => Err(e),
                Ok(g) => match regions_spec(body, next, (count - 1) as nat) {
                    Err(e) => Err(e),
                    Ok((gs, end)) => Ok((seq![g] + gs, end)),
                },
            },
        }
    }
}

/// `done` followed by what a later part of a reading gave.
pub open spec fn after_regions(
    done: Seq<AttachPaneRegion>,
    later: Result<(Seq<AttachPaneRegion>, int), Seq<char>>,
) -> Result<(Seq<AttachPaneRegion>, int), Seq<char>> {
    match later {
        Err(e) => Err(e),
        Ok((gs, end)) => Ok((done + gs, end)),
    }
}

#[verifier::rlimit(40)]
fn read_regions(body: &[u8], cursor: &mut usize, count: usize) -> (r: Result<
    Vec<AttachPaneRegion>,
    String,
>)
    requires
        *old(cursor) <= body@.len(),
    ensures
        *final(cursor) <= body@.len(),
        match regions_spec(body@, *old(cursor) as int, count as nat) {
            Ok((gs, end)) => r matches Ok(v) && v@ == gs && *final(cursor) == end,
            Err(e) => r matches Err(m) && m@ == e,
        },
{
    let ghost c0 = *cursor as int;
    let mut regions: Vec<AttachPaneRegion> = Vec::new();
    let mut i: usize = 0;
    while i < count
        invariant
            i <= count,
            *cursor <= body@.len(),
            c0 == *old(cursor) as int,
            regions_spec(body@, c0, count as nat) == after_regions(
                regions@,
                regions_spec(body@, *cursor as int, (count - i) as nat),
            ),
        decreases count - i,
    {
        let ghost before = *cursor as int;
        let ghost rem = (count - i) as nat;
        assert(rem > 0);
        let line = match read_body_line(body, cursor) {
            Ok(l) => l,
            Err(e) => {
                assert(regions_spec(body@, before, rem) == Err::<(Seq<AttachPaneRegion>, int), Seq<char>>(e@));
                return Err(e);
            },
        };
        let g = match parse_attach_pane_region(line.as_str()) {
            Ok(g) => g,
            Err(e) => {
                assert(regions_spec(body@, before, rem) == Err::<(Seq<AttachPaneRegion>, int), Seq<char>>(e@));
                return Err(e);
            },
        };
        proof {
            let later = regions_spec(body@, *cursor as int, (rem - 1) as nat);
            assert(regions_spec(body@, before, rem) == match later {
                Err(e) => Err(e),
                Ok((gs, end)) => Ok((seq![g] + gs, end)),
            });
            match later {
                Ok((gs, end)) => {
                    assert(regions@.push(g) + gs =~= regions@ + (seq![g] + gs));
                },
                Err(_) => {},
            }
        }
        regions.push(g);
        i += 1;
    }
    assert(regions@ + Seq::<AttachPaneRegion>::empty() =~= regions@);
    Ok(regions)
}

/// A number in a header line of a body, or the message for it.
pub open spec fn header_number(line: Seq<char>, prefix: Seq<char>, missing: Seq<char>, invalid: Seq<char>) -> Result<
    usize,
    Seq<char>,
> {
    if has_prefix(line, prefix) {
        match parse_unsigned(line.skip(prefix.len() as int), usize::MAX as nat) {
            Some(n) => Ok(n as usize),
            None => Err(invalid),
        }
    } else {
        Err(missing)
    }
}

fn read_header_number(
    body: &[u8],
    cursor: &mut usize,
    prefix: &str,
    missing: &str,
    invalid: &str,
) -> (r: Result<usize, String>)
    requires
        *old(cursor) <= body@.len(),
    ensures
        *final(cursor) <= body@.len(),
        match body_line_spec(body@, *old(cursor) as int) {
            Err(e) => r matches Err(m) && m@ == e,
            Ok((line, next)) => *final(cursor) == next && match header_number(
                line,
                prefix@,
                missing@,
                invalid@,
            ) {
                Ok(n) => r == Ok::<usize, String>(n),
                Err(e) => r matches Err(m) && m@ == e,
            },
        },
{
    let line = read_body_line(body, cursor)?;
    let v = chars_of(line.as_str());
    match strip_prefix_chars(v.as_slice(), prefix) {
        None => Err(String::from_str(missing)),
        Some(rest) => match crate::text::parse_usize_chars(rest.as_slice()) {
            Some(n) => Ok(n),
            None => Err(String::from_str(invalid)),
        },
    }
}

/// The bytes that end a body after its last header line: exactly `len` of
/// them, or the message for too few or too many.
pub open spec fn tail_spec(body: Seq<u8>, cursor: int, len: nat, truncated: Seq<char>, extra: Seq<char>) -> Result<
    Seq<u8>,
    Seq<char>,
> {
    let remaining = body.len() - cursor;
    if remaining < len {
        Err(truncated)
    } else if remaining > len {
        Err(extra)
    } else {
        Ok(body.skip(cursor))
    }
}

fn read_tail(body: &[u8], cursor: usize, len: usize, truncated: &str, extra: &str) -> (r: Result<
    Vec<u8>,
    String,
>)
    requires
        cursor <= body@.len(),
    ensures
        match tail_spec(body@, cursor as int, len as nat, truncated@, extra@) {
            Ok(b) => r matches Ok(v) && v@ == b,
            Err(e) => r matches Err(m) && m@ == e,
        },
{
    let remaining = body.len() - cursor;
    if remaining < len {
        return Err(String::from_str(truncated));
    }
    if remaining > len {
        return Err(String::from_str(extra));
    }
    let mut out: Vec<u8> = Vec::new();
    let mut k = cursor;
    while k < body.len()
        invariant
            cursor <= k <= body@.len(),
            out@ == body@.subrange(cursor as int, k as int),
        decreases body.len() - k,
    {
        out.push(body[k]);
        k += 1;
    }
    Ok(out)
}

/// A layout reply: the pane regions and the snapshot text.
#[derive(Clone, Debug, PartialEq, Eq)]
pub struct AttachLayoutSnapshotResponse {
    pub snapshot: Vec<u8>,
    pub regions: Vec<AttachPaneRegion>,
}

/// What a layout reply body holds: its regions and its snapshot bytes.
pub open spec fn layout_snapshot_spec(body: Seq<u8>) -> Result<
    (Seq<AttachPaneRegion>, Seq<u8>),
    Seq<char>,
> {
    match body_line_spec(body, 0) {
        Err(e) => Err(e),
        Ok((header, c1)) => match header_number(
            header,
            "REGIONS\t"@,
            "missing regions header"@,
            "invalid region count"@,
        ) {
            Err(e) => Err(e),
            Ok(count) => match regions_spec(body, c1, count as nat) {
                Err(e) => Err(e),
                Ok((regions, c2)) => match body_line_spec(body, c2) {
                    Err(e) => Err(e),
                    Ok((line, c3)) => match header_number(
                        line,
                        "SNAPSHOT\t"@,
                        "missing snapshot header"@,
                        "invalid snapshot length"@,
                    ) {
                        Err(e) => Err(e),
                        Ok(len) => match tail_spec(
                            body,
                            c3,
                            len as nat,
                            "truncated snapshot body"@,
                            "extra snapshot body bytes"@,
                        ) {
                            Err(e) => Err(e),
                            Ok(snapshot) => Ok((regions, snapshot)),
                        },
                    },
                },
            },
        },
    }
}

/// Reads the body of a layout reply.
pub fn parse_attach_layout_snapshot_response(body: &[u8]) -> (r: Result<
    AttachLayoutSnapshotResponse,
    String,
>)
    ensures
        match layout_snapshot_spec(body@) {
            Ok((regions, snapshot)) => r matches Ok(v) && v.regions@ == regions && v.snapshot@
                == snapshot,
            Err(e) => r matches Err(m) && m@ == e,
        },
{
    let mut cursor: usize = 0;
    let count = read_header_number(
        body,
        &mut cursor,
        "REGIONS\t",
        "missing regions header",
        "invalid region count",
    )?;
    let regions = read_regions(body, &mut cursor, count)?;
    let len = read_header_number(
        body,
        &mut cursor,
        "SNAPSHOT\t",
        "missing snapshot header",
        "invalid snapshot length",
    )?;
    let snapshot = read_tail(body, cursor, len, "truncated snapshot body", "extra snapshot body bytes")?;
    Ok(AttachLayoutSnapshotResponse { snapshot, regions })
}

/// A frame of rendered output, with the layout it was rendered for.
#[derive(Clone, Debug, PartialEq, Eq)]
pub struct AttachRenderFrame {
    pub output: Vec<u8>,
    pub regions: Vec<AttachPaneRegion>,
    pub header_rows: usize,
}

/// What a render frame body holds: its header rows, regions and output.
pub open spec fn render_frame_spec(body: Seq<u8>) -> Result<
    (usize, Seq<AttachPaneRegion>, Seq<u8>),
    Seq<char>,
> {
    match body_line_spec(body, 0) {
        Err(e) => Err(e),
        Ok((first, c0)) => match header_number(
            first,
            "HEADER_ROWS\t"@,
            "missing render header rows"@,
            "invalid render header rows"@,
        ) {
            Err(e) => Err(e),
            Ok(header_rows) => match body_line_spec(body, c0) {
                Err(e) => Err(e),
                Ok((header, c1)) => match header_number(
                    header,
                    "REGIONS\t"@,
                    "missing render regions header"@,
                    "invalid render region count"@,
                ) {
                    Err(e) => Err(e),
                    Ok(count) => match regions_spec(body, c1, count as nat) {
                        Err(e) => Err(e),
                        Ok((regions, c2)) => match body_line_spec(body, c2) {
                            Err(e) => Err(e),
                            Ok((line, c3)) => match header_number(
                                line,
                                "OUTPUT\t"@,
                                "missing render output header"@,
                                "invalid render output length"@,
                            ) {
                                Err(e) => Err(e),
                                Ok(len) => match tail_spec(
                                    body,
                                    c3,
                                    len as nat,
                                    "truncated render output body"@,
                                    "extra render output body bytes"@,
                                ) {
                                    Err(e) => Err(e),
                                    Ok(output) => Ok((header_rows, regions, output)),
                                },
                            },
                        },
                    },
                },
            },
        },
    }
}

/// Reads the body of a render frame.
pub fn parse_attach_render_frame_body(body: &[u8]) -> (r: Result<AttachRenderFrame, String>)
    ensures
        match render_frame_spec(body@) {
            Ok((header_rows, regions, output)) => r matches Ok(f) && f.header_rows == header_rows
                && f.regions@ == regions && f.output@ == output,
            Err(e) => r matches Err(m) && m@ == e,
        },
{
    let mut cursor: usize = 0;
    let header_rows = read_header_number(
        body,
        &mut cursor,
        "HEADER_ROWS\t",
        "missing render header rows",
        "invalid render header rows",
    )?;
    let count = read_header_number(
        body,
        &mut cursor,
        "REGIONS\t",
        "missing render regions header",
        "invalid render region count",
    )?;
    let regions = read_regions(body, &mut cursor, count)?;
    let len = read_header_number(
        body,
        &mut cursor,
        "OUTPUT\t",
        "missing render output header",
        "invalid render output length",
    )?;
    let output = read_tail(
        body,
        cursor,
        len,
        "truncated render output body",
        "extra render output body bytes",
    )?;
    Ok(AttachRenderFrame { output, regions, header_rows })
}

} // verus!
