//! The lines a live client shows above a session: status and message lines
//! cut to the terminal's width, capped to the rows there are, and the boxed
//! popups drawn over the panes.

use vstd::prelude::*;
use vstd::string::*;
use crate::popup::{cells, char_cells, text_cells};
use crate::frames::PtySize;
use crate::render::{cursor_position_bytes, reset_style, write_absolute_cursor_position};
use crate::text::{
    chars_of, contains_seq, contains_str, decimal, is_prefix, lines_of, push_char, starts_with_str,
    string_from_chars, text_lines, trim_end, trim_end_index, usize_string,
};

verus! {

/// The cells a text takes, or `usize::MAX` when that many do not fit.
pub open spec fn display_cells(s: Seq<char>) -> nat {
    if text_cells(s) > usize::MAX {
        usize::MAX as nat
    } else {
        text_cells(s)
    }
}

/// The cells a text takes on a terminal (each character at least one).
pub fn display_cell_width(line: &str) -> (r: usize)
    ensures
        r == display_cells(line@),
{
    let v = chars_of(line);
    let mut total: usize = 0;
    let mut i: usize = 0;
    while i < v.len()
        invariant
            i <= v@.len(),
            v@ == line@,
            total == display_cells(v@.take(i as int)),
        decreases v.len() - i,
    {
        assert(v@.take(i + 1).drop_last() =~= v@.take(i as int));
        let w = char_cells(v[i]);
        if total > usize::MAX - w {
            total = usize::MAX;
        } else {
            total = total + w;
        }
        i += 1;
    }
    assert(v@.take(i as int) =~= v@);
    total
}

/// The longest start of a text that fits in `max` cells.
pub open spec fn take_cells_spec(s: Seq<char>, max: nat) -> Seq<char>
    decreases s.len(),
{
    if s.len() == 0 || cells(s[0]) > max {
        Seq::empty()
    } else {
        seq![s[0]] + take_cells_spec(s.drop_first(), (max - cells(s[0])) as nat)
    }
}

fn take_cells_chars(v: &[char], max_cells: usize) -> (r: Vec<char>)
    ensures
        r@ == take_cells_spec(v@, max_cells as nat),
{
    let mut out: Vec<char> = Vec::new();
    let mut used: usize = 0;
    let mut i: usize = 0;
    assert(v@.skip(0) =~= v@);
    assert(Seq::<char>::empty() + take_cells_spec(v@, max_cells as nat) =~= take_cells_spec(
        v@,
        max_cells as nat,
    ));
    while i < v.len()
        invariant
            i <= v@.len(),
            used <= max_cells,
            take_cells_spec(v@, max_cells as nat) == out@ + take_cells_spec(
                v@.skip(i as int),
                (max_cells - used) as nat,
            ),
        decreases v.len() - i,
    {
        let c = v[i];
        let w = char_cells(c);
        assert(v@.skip(i as int)[0] == c);
        assert(v@.skip(i as int).drop_first() =~= v@.skip(i + 1));
        if w > max_cells - used {
            assert(take_cells_spec(v@.skip(i as int), (max_cells - used) as nat) =~= Seq::<char>::empty());
            assert(out@ + Seq::<char>::empty() =~= out@);
            return out;
        }
        assert(out@.push(c) + take_cells_spec(v@.skip(i + 1), (max_cells - used - w) as nat)
            =~= out@ + (seq![c] + take_cells_spec(v@.skip(i + 1), (max_cells - used - w) as nat)));
        out.push(c);
        used = used + w;
        i += 1;
    }
    assert(take_cells_spec(v@.skip(i as int), (max_cells - used) as nat) =~= Seq::<char>::empty());
    assert(out@ + Seq::<char>::empty() =~= out@);
    out
}

/// The longest start of a line that fits in `max_cells` cells.
pub fn take_cells(line: &str, max_cells: usize) -> (r: String)
    ensures
        r@ == take_cells_spec(line@, max_cells as nat),
{
    let v = chars_of(line);
    let t = take_cells_chars(v.as_slice(), max_cells);
    string_from_chars(t.as_slice())
}

/// A text without its trailing carriage returns.
pub open spec fn trim_trailing_cr(s: Seq<char>) -> Seq<char>
    decreases s.len(),
{
    if s.len() > 0 && s.last() == '\r' {
        trim_trailing_cr(s.drop_last())
    } else {
        s
    }
}

/// A header line cut to a width: trailing carriage returns dropped; with
/// no width, the line; a line that fits, whole; otherwise as many cells as
/// fit, with `...` in the last three cells when there are more than three.
pub open spec fn truncate_spec(line: Seq<char>, width: Option<usize>) -> Seq<char> {
    let l = trim_trailing_cr(line);
    match width {
        None => l,
        Some(w) => if w == 0 {
            Seq::empty()
        } else if display_cells(l) <= w {
            l
        } else if w <= 3 {
            take_cells_spec(l, w as nat)
        } else {
            take_cells_spec(l, (w - 3) as nat) + "..."@
        },
    }
}

fn trim_trailing_cr_chars(v: &[char]) -> (r: Vec<char>)
    ensures
        r@ == trim_trailing_cr(v@),
{
    let mut end = v.len();
    assert(v@.take(end as int) =~= v@);
    while end > 0 && v[end - 1] == '\r'
        invariant
            end <= v@.len(),
            trim_trailing_cr(v@) == trim_trailing_cr(v@.take(end as int)),
        decreases end,
    {
        assert(v@.take(end as int).drop_last() =~= v@.take(end - 1));
        end -= 1;
    }
    let mut out: Vec<char> = Vec::new();
    let mut i: usize = 0;
    while i < end
        invariant
            end <= v@.len(),
            i <= end,
            out@ == v@.take(i as int),
        decreases end - i,
    {
        out.push(v[i]);
        assert(v@.take(i + 1) =~= v@.take(i as int).push(v@[i as int]));
        i += 1;
    }
    if end > 0 {
        assert(v@.take(end as int).last() != '\r');
    }
    out
}

/// The cells of two texts put together are the cells of each.
pub proof fn lemma_text_cells_concat(a: Seq<char>, b: Seq<char>)
    ensures
        text_cells(a + b) == text_cells(a) + text_cells(b),
    decreases b.len(),
{
    if b.len() == 0 {
        assert(a + b =~= a);
    } else {
        lemma_text_cells_concat(a, b.drop_last());
        assert((a + b).drop_last() =~= a + b.drop_last());
        assert((a + b).last() == b.last());
    }
}

/// The start of a text taken to fit in `max` cells fits in them.
pub proof fn lemma_take_cells_fits(s: Seq<char>, max: nat)
    ensures
        text_cells(take_cells_spec(s, max)) <= max,
    decreases s.len(),
{
    if s.len() > 0 && cells(s[0]) <= max {
        let rest = take_cells_spec(s.drop_first(), (max - cells(s[0])) as nat);
        lemma_take_cells_fits(s.drop_first(), (max - cells(s[0])) as nat);
        lemma_text_cells_concat(seq![s[0]], rest);
        let one = seq![s[0]];
        assert(one.drop_last() =~= Seq::<char>::empty());
        assert(one.last() == s[0]);
        assert(text_cells(Seq::<char>::empty()) == 0);
        assert(text_cells(one) == cells(s[0]));
    } else {
        assert(take_cells_spec(s, max) =~= Seq::<char>::empty());
    }
}

/// Cuts a header line to a terminal width; the line it gives fits in the
/// width.
pub fn truncate_header_line(line: &str, width: Option<usize>) -> (r: String)
    ensures
        r@ == truncate_spec(line@, width),
        width matches Some(w) ==> display_cells(r@) <= w,
{
    let v = chars_of(line);
    let l = trim_trailing_cr_chars(v.as_slice());
    let ls = string_from_chars(l.as_slice());
    let w = match width {
        None => return ls,
        Some(w) => w,
    };
    if w == 0 {
        return String::new();
    }
    if display_cell_width(ls.as_str()) <= w {
        return ls;
    }
    if w <= 3 {
        let t = take_cells(ls.as_str(), w);
        proof {
            lemma_take_cells_fits(ls@, w as nat);
        }
        return t;
    }
    let mut out = take_cells(ls.as_str(), w - 3);
    let dot = char_cells('.');
    out.append("...");
    proof {
        reveal_strlit("...");
        lemma_take_cells_fits(ls@, (w - 3) as nat);
        let head = take_cells_spec(ls@, (w - 3) as nat);
        lemma_text_cells_concat(head, "..."@);
        let d = "..."@;
        assert(d.len() == 3 && d[0] == '.' && d[1] == '.' && d[2] == '.');
        let d1 = d.drop_last().drop_last();
        assert(d1.len() == 1 && d1.last() == '.');
        assert(d1.drop_last() =~= Seq::<char>::empty());
        assert(text_cells(Seq::<char>::empty()) == 0);
        assert(dot == cells('.'));
        assert(dot == 1);
        assert(text_cells(d1) == 1);
        assert(d.drop_last().last() == '.' && d.last() == '.');
        assert(text_cells(d.drop_last()) == 2);
        assert(text_cells(d) == 3);
    }
    out
}

/// The header lines for a status text and a message: the status's lines
/// (none for an empty status), then the message's, each cut to the width.
pub open spec fn header_lines_spec(status: Seq<char>, message: Option<Seq<char>>, width: Option<usize>) -> Seq<
    Seq<char>,
> {
    let a = if status.len() == 0 {
        Seq::empty()
    } else {
        text_lines(status).map_values(|l: Seq<char>| truncate_spec(l, width))
    };
    match message {
        None => a,
        Some(m) => a + text_lines(m).map_values(|l: Seq<char>| truncate_spec(l, width)),
    }
}

fn push_truncated_lines(out: &mut Vec<String>, text: &str, width: Option<usize>)
    ensures
        final(out)@.len() == old(out)@.len() + text_lines(text@).len(),
        forall|k: int| 0 <= k < old(out)@.len() ==> (#[trigger] final(out)@[k]) == old(out)@[k],
        forall|k: int|
            0 <= k < text_lines(text@).len() ==> (#[trigger] final(out)@[old(out)@.len() + k])@
                == truncate_spec(text_lines(text@)[k], width),
{
    let v = chars_of(text);
    let lines = lines_of(&v);
    let ghost start = out@;
    let mut k: usize = 0;
    while k < lines.len()
        invariant
            k <= lines@.len() == text_lines(text@).len(),
            v@ == text@,
            forall|j: int| 0 <= j < lines@.len() ==> (#[trigger] lines@[j])@ == text_lines(text@)[j],
            out@.len() == start.len() + k,
            forall|j: int| 0 <= j < start.len() ==> (#[trigger] out@[j]) == start[j],
            forall|j: int|
                0 <= j < k ==> (#[trigger] out@[start.len() + j])@ == truncate_spec(
                    text_lines(text@)[j],
                    width,
                ),
        decreases lines.len() - k,
    {
        let line = string_from_chars(lines[k].as_slice());
        let t = truncate_header_line(line.as_str(), width);
        out.push(t);
        proof {
            assert forall|j: int| 0 <= j < k + 1 implies (#[trigger] out@[start.len() + j])@
                == truncate_spec(text_lines(text@)[j], width) by {
                if j < k {
                    assert(out@[start.len() + j] == old(out)@[start.len() + j] || true);
                }
            }
        }
        k += 1;
    }
}

/// The header lines for a status text and an optional message, each cut to
/// the terminal's width.
pub fn live_header_lines(status: &str, message: Option<&str>, width: Option<usize>) -> (r: Vec<
    String,
>)
    ensures
        r@.len() == header_lines_spec(status@, opt_str_view(message), width).len(),
        forall|k: int|
            0 <= k < r@.len() ==> (#[trigger] r@[k])@ == header_lines_spec(
                status@,
                opt_str_view(message),
                width,
            )[k],
{
    let mut lines: Vec<String> = Vec::new();
    let sv = chars_of(status);
    if sv.len() > 0 {
        push_truncated_lines(&mut lines, status, width);
    }
    let ghost after_status = lines@;
    match message {
        Some(m) => {
            push_truncated_lines(&mut lines, m, width);
        },
        None => {},
    }
    proof {
        let h = header_lines_spec(status@, opt_str_view(message), width);
        let a = if status@.len() == 0 {
            Seq::<Seq<char>>::empty()
        } else {
            text_lines(status@).map_values(|l: Seq<char>| truncate_spec(l, width))
        };
        assert(after_status.len() == a.len());
        assert forall|k: int| 0 <= k < a.len() implies (#[trigger] after_status[k])@ == a[k] by {
            assert(after_status[0 + k] == after_status[k]);
        }
        match message {
            Some(m) => {
                let b = text_lines(m@).map_values(|l: Seq<char>| truncate_spec(l, width));
                assert(h == a + b);
                assert forall|k: int| 0 <= k < lines@.len() implies (#[trigger] lines@[k])@ == h[k] by {
                    if k < a.len() {
                        assert(lines@[k] == after_status[k]);
                    } else {
                        assert(lines@[a.len() + (k - a.len())] == lines@[k]);
                    }
                }
            },
            None => {},
        }
    }
    lines
}

/// The text of an optional string slice.
pub open spec fn opt_str_view(o: Option<&str>) -> Option<Seq<char>> {
    match o {
        Some(s) => Some(s@),
        None => None,
    }
}

/// The line that stands for the lines a cap leaves out.
pub open spec fn omitted_line(omitted: nat) -> Seq<char> {
    "... "@ + decimal(omitted) + " more lines"@
}

/// Header lines capped to the rows there are: all when they fit or there
/// is no cap; none for no rows; the last ones when the tail goes first;
/// otherwise the first ones with the last row saying how many were left
/// out.
pub open spec fn cap_spec(
    lines: Seq<Seq<char>>,
    max_rows: Option<usize>,
    width: Option<usize>,
    prioritize_tail: bool,
) -> Seq<Seq<char>> {
    match max_rows {
        None => lines,
        Some(m) => if lines.len() <= m {
            lines
        } else if m == 0 {
            Seq::empty()
        } else if prioritize_tail {
            lines.skip(lines.len() - m)
        } else {
            lines.take(m - 1).push(truncate_spec(omitted_line((lines.len() - m + 1) as nat), width))
        },
    }
}

/// The views of a list of strings.
pub open spec fn strings_view(v: Seq<String>) -> Seq<Seq<char>> {
    v.map_values(|s: String| s@)
}

/// Caps header lines to the rows a terminal leaves for them.
pub fn cap_live_header_lines(
    lines: Vec<String>,
    max_rows: Option<usize>,
    width: Option<usize>,
    prioritize_tail: bool,
) -> (r: Vec<String>)
    ensures
        strings_view(r@) == cap_spec(strings_view(lines@), max_rows, width, prioritize_tail),
{
    let ghost lv = strings_view(lines@);
    let m = match max_rows {
        None => return lines,
        Some(m) => m,
    };
    if lines.len() <= m {
        return lines;
    }
    if m == 0 {
        assert(strings_view(Seq::<String>::empty()) =~= Seq::<Seq<char>>::empty());
        return Vec::new();
    }
    let mut out: Vec<String> = Vec::new();
    if prioritize_tail {
        let start = lines.len() - m;
        let mut i = start;
        while i < lines.len()
            invariant
                start <= i <= lines@.len(),
                start == lines@.len() - m,
                lv == strings_view(lines@),
                strings_view(out@) == lv.subrange(start as int, i as int),
            decreases lines.len() - i,
        {
            let ghost before = out@;
            out.push(lines[i].clone());
            assert(strings_view(out@) =~= strings_view(before).push(lv[i as int]));
            assert(strings_view(out@) =~= lv.subrange(start as int, i + 1));
            i += 1;
        }
        assert(lv.subrange(start as int, lines@.len() as int) =~= lv.skip(start as int));
        return out;
    }
    let mut i: usize = 0;
    while i + 1 < m
        invariant
            i < m < lines@.len(),
            lv == strings_view(lines@),
            strings_view(out@) == lv.take(i as int),
        decreases m - i,
    {
        let ghost before = out@;
        out.push(lines[i].clone());
        assert(strings_view(out@) =~= strings_view(before).push(lv[i as int]));
        assert(strings_view(out@) =~= lv.take(i + 1));
        i += 1;
    }
    let omitted = lines.len() - m + 1;
    let mut msg = String::from_str("... ");
    let n = usize_string(omitted);
    msg.append(n.as_str());
    msg.append(" more lines");
    proof {
        reveal_strlit("... ");
        reveal_strlit(" more lines");
    }
    let last = truncate_header_line(msg.as_str(), width);
    out.push(last);
    assert(strings_view(out@) =~= lv.take(m - 1).push(
        truncate_spec(omitted_line(omitted as nat), width),
    ));
    out
}

/// `n` copies of a character.
pub open spec fn repeat_char(c: char, n: nat) -> Seq<char> {
    Seq::new(n, |i: int| c)
}

fn push_repeat(s: &mut String, c: char, n: usize)
    ensures
        final(s)@ == old(s)@ + repeat_char(c, n as nat),
{
    let ghost start = s@;
    let mut i: usize = 0;
    while i < n
        invariant
            i <= n,
            s@ == start + repeat_char(c, i as nat),
        decreases n - i,
    {
        push_char(s, c);
        assert(repeat_char(c, (i + 1) as nat) =~= repeat_char(c, i as nat).push(c));
        i += 1;
    }
}

/// `a - b`, or zero when `b` is larger.
pub open spec fn sat_sub(a: nat, b: nat) -> nat {
    if a >= b {
        (a - b) as nat
    } else {
        0
    }
}

/// Spaces that pad a line out to `target` cells.
pub fn cell_padding(line: &str, target_width: usize) -> (r: String)
    ensures
        r@ == repeat_char(' ', sat_sub(target_width as nat, display_cells(line@))),
{
    let w = display_cell_width(line);
    let n = if target_width >= w {
        target_width - w
    } else {
        0
    };
    let mut out = String::new();
    push_repeat(&mut out, ' ', n);
    assert(out@ =~= repeat_char(' ', sat_sub(target_width as nat, display_cells(line@))));
    out
}

/// The widest of some lines, in cells; zero for none.
pub open spec fn widest(lines: Seq<Seq<char>>) -> nat
    decreases lines.len(),
{
    if lines.len() == 0 {
        0
    } else {
        let w = widest(lines.drop_last());
        let c = display_cells(lines.last());
        if c > w {
            c
        } else {
            w
        }
    }
}

/// The lines a popup can show of its content: at most `rows` of them, the
/// last of those saying that more were left out when some were.
pub open spec fn visible_content(content: Seq<Seq<char>>, rows: nat) -> Seq<Seq<char>> {
    if content.len() > rows {
        content.take(rows as int).update(
            rows - 1,
            if rows == 1 {
                "..."@
            } else {
                "... more"@
            },
        )
    } else {
        content
    }
}

/// A content line of a popup: `│ `, the line cut to the inner width and
/// padded out to it, then ` │`.
pub open spec fn boxed_line(line: Seq<char>, inner: nat) -> Seq<char> {
    let t = truncate_spec(line, Some(inner as usize));
    "│ "@ + t + repeat_char(' ', sat_sub(inner, display_cells(t))) + " │"@
}

/// The lines of a boxed popup with a title in its top border, fitted to a
/// total width and a number of rows when they are given; none when they
/// leave no room.
pub open spec fn boxed_spec(
    title: Seq<char>,
    content: Seq<Seq<char>>,
    max_total_width: Option<usize>,
    max_rows: Option<usize>,
) -> Seq<Seq<char>> {
    let mcr: nat = match max_rows {
        Some(r) => sat_sub(r as nat, 2),
        None => usize::MAX as nat,
    };
    if max_total_width matches Some(w) && w < 4 {
        Seq::empty()
    } else if mcr == 0 {
        Seq::empty()
    } else {
        let visible = visible_content(content, mcr);
        let max_inner: nat = match max_total_width {
            Some(w) => sat_sub(w as nat, 2),
            None => usize::MAX as nat,
        };
        let title_text = " "@ + title + " "@;
        let border = border_width(widest(visible), title_text, max_inner);
        if border == 0 {
            Seq::empty()
        } else {
            let segment = truncate_spec(title_text, Some(border as usize));
            let trailing = sat_sub(border, display_cells(segment));
            let inner = sat_sub(border, 2);
            seq!["┌"@ + segment + repeat_char('─', trailing) + "┐"@] + visible.map_values(
                |l: Seq<char>| boxed_line(l, inner),
            ) + seq!["└"@ + repeat_char('─', border) + "┘"@]
        }
    }
}

fn visible_lines(content: &[String], mcr: usize) -> (r: Vec<String>)
    requires
        mcr > 0,
    ensures
        strings_view(r@) == visible_content(strings_view(content@), mcr as nat),
{
    let ghost cv = strings_view(content@);
    let mut visible: Vec<String> = Vec::new();
    let mut i: usize = 0;
    while i < content.len() && i < mcr
        invariant
            i <= content@.len(),
            i <= mcr,
            cv == strings_view(content@),
            strings_view(visible@) == cv.take(i as int),
        decreases content.len() - i,
    {
        let ghost before = visible@;
        visible.push(content[i].clone());
        assert(strings_view(visible@) =~= strings_view(before).push(cv[i as int]));
        assert(strings_view(visible@) =~= cv.take(i + 1));
        i += 1;
    }
    if content.len() > mcr {
        let replacement = if mcr == 1 {
            String::from_str("...")
        } else {
            String::from_str("... more")
        };
        let ghost before = visible@;
        visible.set(mcr - 1, replacement);
        assert(strings_view(visible@) =~= strings_view(before).update(mcr - 1, replacement@));
    } else {
        assert(cv.take(i as int) =~= cv);
    }
    visible
}

fn widest_width(lines: &[String]) -> (r: usize)
    ensures
        r == widest(strings_view(lines@)),
{
    let ghost vv = strings_view(lines@);
    let mut widest_cells: usize = 0;
    let mut k: usize = 0;
    while k < lines.len()
        invariant
            k <= lines@.len(),
            vv == strings_view(lines@),
            widest_cells == widest(vv.take(k as int)),
        decreases lines.len() - k,
    {
        assert(vv.take(k + 1).drop_last() =~= vv.take(k as int));
        let c = display_cell_width(lines[k].as_str());
        if c > widest_cells {
            widest_cells = c;
        }
        k += 1;
    }
    assert(vv.take(k as int) =~= vv);
    widest_cells
}

fn push_boxed_lines(lines: &mut Vec<String>, visible: &[String], inner: usize)
    ensures
        strings_view(final(lines)@) == strings_view(old(lines)@) + strings_view(visible@).map_values(
            |l: Seq<char>| boxed_line(l, inner as nat),
        ),
{
    let ghost vv = strings_view(visible@);
    let ghost head = strings_view(lines@);
    proof {
        reveal_strlit("│ ");
        reveal_strlit(" │");
    }
    let mut j: usize = 0;
    while j < visible.len()
        invariant
            j <= visible@.len(),
            vv == strings_view(visible@),
            strings_view(lines@) == head + vv.take(j as int).map_values(
                |l: Seq<char>| boxed_line(l, inner as nat),
            ),
        decreases visible.len() - j,
    {
        let t = truncate_header_line(visible[j].as_str(), Some(inner));
        let pad = cell_padding(t.as_str(), inner);
        let mut line = String::from_str("│ ");
        line.append(t.as_str());
        line.append(pad.as_str());
        line.append(" │");
        assert(line@ == boxed_line(vv[j as int], inner as nat));
        let ghost before = lines@;
        lines.push(line);
        assert(strings_view(lines@) =~= strings_view(before).push(line@));
        assert(vv.take(j + 1).map_values(|l: Seq<char>| boxed_line(l, inner as nat)) =~= vv.take(
            j as int,
        ).map_values(|l: Seq<char>| boxed_line(l, inner as nat)).push(line@));
        j += 1;
    }
    assert(vv.take(j as int) =~= vv);
}

/// The width and inner width of a popup's border, given the widest content
/// line, the title text and the inner width allowed.
pub open spec fn border_width(content_widest: nat, title_text: Seq<char>, max_inner: nat) -> nat {
    let max_content_width = sat_sub(max_inner, 2);
    let content_width = if content_widest < max_content_width {
        content_widest
    } else {
        max_content_width
    };
    let wanted = if content_width + 2 > display_cells(title_text) {
        content_width + 2
    } else {
        display_cells(title_text)
    };
    if wanted < max_inner {
        wanted
    } else {
        max_inner
    }
}

/// Lays out a boxed popup with a title in its top border.
#[verifier::rlimit(40)]
pub fn boxed_popup_lines(
    title: &str,
    content: &[String],
    max_total_width: Option<usize>,
    max_rows: Option<usize>,
) -> (r: Vec<String>)
    ensures
        strings_view(r@) == boxed_spec(title@, strings_view(content@), max_total_width, max_rows),
{
    if let Some(w) = max_total_width {
        if w < 4 {
            assert(strings_view(Seq::<String>::empty()) =~= Seq::<Seq<char>>::empty());
            return Vec::new();
        }
    }
    let mcr: usize = match max_rows {
        Some(r) => if r >= 2 {
            r - 2
        } else {
            0
        },
        None => usize::MAX,
    };
    if mcr == 0 {
        assert(strings_view(Seq::<String>::empty()) =~= Seq::<Seq<char>>::empty());
        return Vec::new();
    }
    let visible = visible_lines(content, mcr);
    let max_inner: usize = match max_total_width {
        Some(w) => if w >= 2 {
            w - 2
        } else {
            0
        },
        None => usize::MAX,
    };
    let max_content_width: usize = if max_inner >= 2 {
        max_inner - 2
    } else {
        0
    };
    let widest_cells = widest_width(visible.as_slice());
    let content_width = if widest_cells < max_content_width {
        widest_cells
    } else {
        max_content_width
    };
    let mut title_text = String::from_str(" ");
    title_text.append(title);
    title_text.append(" ");
    proof {
        reveal_strlit(" ");
    }
    let title_cells = display_cell_width(title_text.as_str());
    let wanted = if content_width + 2 > title_cells {
        content_width + 2
    } else {
        title_cells
    };
    let border = if wanted < max_inner {
        wanted
    } else {
        max_inner
    };
    assert(border == border_width(widest(strings_view(visible@)), title_text@, max_inner as nat));
    if border == 0 {
        assert(strings_view(Seq::<String>::empty()) =~= Seq::<Seq<char>>::empty());
        return Vec::new();
    }
    let segment = truncate_header_line(title_text.as_str(), Some(border));
    let seg_cells = display_cell_width(segment.as_str());
    let trailing = if border >= seg_cells {
        border - seg_cells
    } else {
        0
    };
    let inner = if border >= 2 {
        border - 2
    } else {
        0
    };
    let mut lines: Vec<String> = Vec::new();
    let mut top = String::from_str("┌");
    top.append(segment.as_str());
    push_repeat(&mut top, '─', trailing);
    top.append("┐");
    proof {
        reveal_strlit("┌");
        reveal_strlit("┐");
        reveal_strlit("└");
        reveal_strlit("┘");
    }
    lines.push(top);
    assert(strings_view(lines@) =~= seq![top@]);
    push_boxed_lines(&mut lines, visible.as_slice(), inner);
    let mut bottom = String::from_str("└");
    push_repeat(&mut bottom, '─', border);
    bottom.append("┘");
    let ghost before = lines@;
    lines.push(bottom);
    assert(strings_view(lines@) =~= strings_view(before).push(bottom@));
    assert(strings_view(lines@) =~= boxed_spec(title@, strings_view(content@), max_total_width, max_rows));
    lines
}

/// The non-blank lines of a popup text, each without trailing whitespace.
pub open spec fn content_lines_spec(lines: Seq<Seq<char>>) -> Seq<Seq<char>>
    decreases lines.len(),
{
    if lines.len() == 0 {
        Seq::empty()
    } else {
        let done = content_lines_spec(lines.drop_last());
        let l = trim_end(lines.last());
        if l.len() == 0 {
            done
        } else {
            done.push(l)
        }
    }
}

fn trim_end_string(line: &[char]) -> (r: Vec<char>)
    ensures
        r@ == trim_end(line@),
{
    let e = trim_end_index(line, 0, line.len());
    assert(line@.subrange(0, line@.len() as int) =~= line@);
    let mut out: Vec<char> = Vec::new();
    let mut i: usize = 0;
    while i < e
        invariant
            e <= line@.len(),
            i <= e,
            out@ == line@.subrange(0, i as int),
        decreases e - i,
    {
        out.push(line[i]);
        i += 1;
    }
    out
}

/// The lines a popup shows of a text: its non-blank lines, trailing
/// whitespace dropped.
pub fn popup_content_lines(text: &str) -> (r: Vec<String>)
    ensures
        strings_view(r@) == content_lines_spec(text_lines(text@)),
{
    let v = chars_of(text);
    let lines = lines_of(&v);
    let ghost ls = text_lines(text@);
    let mut out: Vec<String> = Vec::new();
    let mut k: usize = 0;
    while k < lines.len()
        invariant
            k <= lines@.len() == ls.len(),
            forall|j: int| 0 <= j < lines@.len() ==> (#[trigger] lines@[j])@ == ls[j],
            strings_view(out@) == content_lines_spec(ls.take(k as int)),
        decreases lines.len() - k,
    {
        assert(ls.take(k + 1).drop_last() =~= ls.take(k as int));
        assert(ls.take(k + 1).last() == lines@[k as int]@);
        let t = trim_end_string(lines[k].as_slice());
        if t.len() > 0 {
            let ghost before = out@;
            let line = string_from_chars(t.as_slice());
            out.push(line);
            assert(strings_view(out@) =~= strings_view(before).push(t@));
        }
        k += 1;
    }
    assert(ls.take(k as int) =~= ls);
    out
}

/// The bytes that draw a boxed popup centred in the rows below the header:
/// the saved cursor, each line at its place in plain style, then the cursor
/// restored; nothing when the terminal leaves no room for it.
pub open spec fn overlay_spec(
    title: Seq<char>,
    content: Seq<Seq<char>>,
    size: PtySize,
    header_rows: usize,
) -> Seq<u8> {
    let rows = size.rows as nat;
    let cols = size.cols as nat;
    let available = sat_sub(rows, header_rows as nat);
    let lines = boxed_spec(title, content, Some(cols as usize), Some(available as usize));
    let height = lines.len();
    let width = widest(lines);
    if rows <= header_rows || cols < 4 || available < 3 || lines.len() == 0 || height > available
        || width > cols {
        Seq::empty()
    } else {
        let top = header_rows + (sat_sub(available, height) + 1) / 2 + 1;
        let left = (sat_sub(cols, width) + 1) / 2 + 1;
        seq![27u8, 55u8] + overlay_rows(lines, top as nat, left as nat, lines.len()) + seq![27u8, 56u8]
    }
}

/// The first `n` lines of a popup, each placed at its row.
pub open spec fn overlay_rows(lines: Seq<Seq<char>>, top: nat, left: nat, n: nat) -> Seq<u8>
    decreases n,
{
    if n == 0 {
        Seq::empty()
    } else {
        let i = (n - 1) as nat;
        overlay_rows(lines, top, left, i) + cursor_position_bytes(top + i, left) + reset_style()
            + vstd::utf8::encode_utf8(lines[i as int])
    }
}

fn append_bytes_to(out: &mut Vec<u8>, b: &[u8])
    ensures
        final(out)@ == old(out)@ + b@,
{
    let ghost start = out@;
    let mut i: usize = 0;
    while i < b.len()
        invariant
            i <= b@.len(),
            out@ == start + b@.take(i as int),
        decreases b.len() - i,
    {
        out.push(b[i]);
        assert(b@.take(i + 1) =~= b@.take(i as int).push(b@[i as int]));
        i += 1;
    }
    assert(b@.take(i as int) =~= b@);
}

/// Draws a boxed popup centred in the rows below the header.
#[verifier::rlimit(40)]
pub fn append_centered_popup_overlay(
    output: &mut Vec<u8>,
    title: &str,
    content: &[String],
    size: PtySize,
    header_rows: usize,
)
    ensures
        final(output)@ == old(output)@ + overlay_spec(title@, strings_view(content@), size, header_rows),
{
    let rows = size.rows as usize;
    let cols = size.cols as usize;
    if rows <= header_rows || cols < 4 {
        assert(old(output)@ + Seq::<u8>::empty() =~= old(output)@);
        return;
    }
    let available = rows - header_rows;
    if available < 3 {
        assert(old(output)@ + Seq::<u8>::empty() =~= old(output)@);
        return;
    }
    let lines = boxed_popup_lines(title, content, Some(cols), Some(available));
    let ghost lv = strings_view(lines@);
    if lines.len() == 0 {
        assert(old(output)@ + Seq::<u8>::empty() =~= old(output)@);
        return;
    }
    let height = lines.len();
    let width = widest_width(lines.as_slice());
    if height > available || width > cols {
        assert(old(output)@ + Seq::<u8>::empty() =~= old(output)@);
        return;
    }
    let top = header_rows + ((available - height) + 1) / 2 + 1;
    let left = ((cols - width) + 1) / 2 + 1;
    let ghost start = output@;
    output.push(27u8);
    output.push(55u8);
    let mut i: usize = 0;
    while i < lines.len()
        invariant
            i <= lines@.len(),
            lv == strings_view(lines@),
            lines@.len() <= available <= rows <= u16::MAX,
            top == header_rows + ((available - lines@.len()) + 1) / 2 + 1,
            top + lines@.len() <= rows + 1,
            output@ == start + seq![27u8, 55u8] + overlay_rows(lv, top as nat, left as nat, i as nat),
        decreases lines.len() - i,
    {
        write_absolute_cursor_position(output, top + i, left);
        output.push(27u8);
        output.push(91u8);
        output.push(48u8);
        output.push(109u8);
        let bytes = lines[i].as_str().as_bytes();
        append_bytes_to(output, bytes);
        assert(lv[i as int] == lines@[i as int]@);
        assert(output@ =~= start + seq![27u8, 55u8] + overlay_rows(lv, top as nat, left as nat, (i + 1) as nat));
        i += 1;
    }
    output.push(27u8);
    output.push(56u8);
}

/// The line that says how to close the help popup.
pub open spec fn close_hint() -> Seq<char> {
    "C-b ? close"@
}

/// A text with every occurrence of `from` replaced by `to`, left to right.
pub open spec fn replace_all(s: Seq<char>, from: Seq<char>, to: Seq<char>) -> Seq<char>
    decreases s.len(),
{
    if s.len() == 0 {
        Seq::empty()
    } else if from.len() > 0 && is_prefix(from, s) {
        to + replace_all(s.skip(from.len() as int), from, to)
    } else {
        seq![s[0]] + replace_all(s.drop_first(), from, to)
    }
}

/// Whether a help line stays out of the popup: it is blank or one of the
/// notes that only the full help needs.
pub open spec fn help_line_dropped(line: Seq<char>) -> bool {
    line.len() == 0 || is_prefix("Prompt accepts "@, line) || is_prefix(
        "Key bindings and options "@,
        line,
    ) || is_prefix("Use list-keys/"@, line)
}

/// The kept help lines, trailing whitespace dropped and the toggle hint
/// turned into the close hint.
pub open spec fn help_popup_lines(lines: Seq<Seq<char>>) -> Seq<Seq<char>>
    decreases lines.len(),
{
    if lines.len() == 0 {
        Seq::empty()
    } else {
        let done = help_popup_lines(lines.drop_last());
        let l = trim_end(lines.last());
        if help_line_dropped(l) {
            done
        } else {
            done.push(replace_all(l, "C-b ? toggle help"@, close_hint()))
        }
    }
}

/// The help popup's content: the kept lines of the help, with the close
/// hint first when none of them gives it.
pub open spec fn help_popup_content_spec(help: Seq<char>) -> Seq<Seq<char>> {
    let ls = help_popup_lines(text_lines(help));
    if exists|i: int| 0 <= i < ls.len() && contains_seq(ls[i], close_hint()) {
        ls
    } else {
        seq![close_hint()] + ls
    }
}

fn replace_chars(v: &[char], from: &str, to: &str) -> (r: Vec<char>)
    requires
        from@.len() > 0,
    ensures
        r@ == replace_all(v@, from@, to@),
{
    let f = chars_of(from);
    let t = chars_of(to);
    let mut out: Vec<char> = Vec::new();
    let mut i: usize = 0;
    assert(v@.skip(0) =~= v@);
    assert(Seq::<char>::empty() + replace_all(v@, from@, to@) =~= replace_all(v@, from@, to@));
    while i < v.len()
        invariant
            i <= v@.len(),
            f@ == from@,
            t@ == to@,
            from@.len() > 0,
            out@ + replace_all(v@.skip(i as int), from@, to@) == replace_all(v@, from@, to@),
        decreases v.len() - i,
    {
        let rest = sub_chars_from(v, i);
        let m = starts_with_str(rest.as_slice(), from);
        assert(rest@ == v@.skip(i as int));
        if m {
            let ghost before = out@;
            let mut k: usize = 0;
            while k < t.len()
                invariant
                    k <= t@.len(),
                    out@ == before + t@.take(k as int),
                decreases t.len() - k,
            {
                out.push(t[k]);
                assert(t@.take(k + 1) =~= t@.take(k as int).push(t@[k as int]));
                k += 1;
            }
            assert(t@.take(k as int) =~= t@);
            assert(v@.skip(i as int).skip(from@.len() as int) =~= v@.skip(i + f.len()));
            assert(before + to@ + replace_all(v@.skip(i + f.len()), from@, to@) =~= before + (to@
                + replace_all(v@.skip(i as int).skip(from@.len() as int), from@, to@)));
            i = i + f.len();
        } else {
            let ghost before = out@;
            out.push(v[i]);
            assert(v@.skip(i as int).drop_first() =~= v@.skip(i + 1));
            assert(before.push(v@[i as int]) + replace_all(v@.skip(i + 1), from@, to@) =~= before + (
            seq![v@[i as int]] + replace_all(v@.skip(i as int).drop_first(), from@, to@)));
            i += 1;
        }
    }
    assert(out@ + Seq::<char>::empty() =~= out@);
    out
}

fn sub_chars_from(v: &[char], start: usize) -> (r: Vec<char>)
    requires
        start <= v@.len(),
    ensures
        r@ == v@.skip(start as int),
{
    let mut out: Vec<char> = Vec::new();
    let mut i = start;
    while i < v.len()
        invariant
            start <= i <= v@.len(),
            out@ == v@.subrange(start as int, i as int),
        decreases v.len() - i,
    {
        out.push(v[i]);
        i += 1;
    }
    out
}

/// The lines the help popup shows.
pub fn attach_help_popup_content() -> (r: Vec<String>)
    ensures
        strings_view(r@) == help_popup_content_spec(crate::cli::attach_overlay_text()),
{
    let help = attach_help_message();
    let v = chars_of(help);
    let lines = lines_of(&v);
    let ghost ls = text_lines(help@);
    let mut content: Vec<String> = Vec::new();
    let mut saw = false;
    let mut k: usize = 0;
    while k < lines.len()
        invariant
            k <= lines@.len() == ls.len(),
            help@ == crate::cli::attach_overlay_text(),
            forall|j: int| 0 <= j < lines@.len() ==> (#[trigger] lines@[j])@ == ls[j],
            strings_view(content@) == help_popup_lines(ls.take(k as int)),
            saw == exists|i: int|
                0 <= i < content@.len() && contains_seq(
                    #[trigger] strings_view(content@)[i],
                    close_hint(),
                ),
        decreases lines.len() - k,
    {
        assert(ls.take(k + 1).drop_last() =~= ls.take(k as int));
        assert(ls.take(k + 1).last() == lines@[k as int]@);
        let t = trim_end_string(lines[k].as_slice());
        let dropped = t.len() == 0 || starts_with_str(t.as_slice(), "Prompt accepts ")
            || starts_with_str(t.as_slice(), "Key bindings and options ") || starts_with_str(
            t.as_slice(),
            "Use list-keys/",
        );
        if !dropped {
            proof {
                reveal_strlit("C-b ? toggle help");
            }
            let replaced = replace_chars(t.as_slice(), "C-b ? toggle help", "C-b ? close");
            let found = contains_str(replaced.as_slice(), "C-b ? close");
            let ghost before = content@;
            let line = string_from_chars(replaced.as_slice());
            content.push(line);
            assert(strings_view(content@) =~= strings_view(before).push(replaced@));
            proof {
                if saw {
                    let i = choose|i: int|
                        0 <= i < before.len() && contains_seq(
                            #[trigger] strings_view(before)[i],
                            close_hint(),
                        );
                    assert(strings_view(content@)[i] == strings_view(before)[i]);
                }
                if found {
                    assert(strings_view(content@)[before.len() as int] == replaced@);
                }
                if !saw && !found {
                    assert forall|i: int| 0 <= i < content@.len() implies !contains_seq(
                        #[trigger] strings_view(content@)[i],
                        close_hint(),
                    ) by {
                        if i < before.len() {
                            assert(strings_view(content@)[i] == strings_view(before)[i]);
                        }
                    }
                }
            }
            saw = saw || found;
        }
        k += 1;
    }
    assert(ls.take(k as int) =~= ls);
    if !saw {
        let ghost before = content@;
        content.insert(0, String::from_str("C-b ? close"));
        assert(strings_view(content@) =~= seq![close_hint()] + strings_view(before));
    }
    content
}

/// The help text an attached client shows.
pub fn attach_help_message() -> (r: &'static str)
    ensures
        r@ == crate::cli::attach_overlay_text(),
{
    crate::cli::attach_help_overlay()
}

/// The help popup's lines joined into one text.
pub fn attach_help_overlay_text() -> (r: String)
    ensures
        r@ == crate::text::join(help_popup_content_spec(crate::cli::attach_overlay_text()), '\n'),
{
    let content = attach_help_popup_content();
    join_strings(&content, '\n')
}

/// The help popup drawn as a box, its lines joined into one text.
pub fn attach_help_popup_message() -> (r: String)
    ensures
        r@ == crate::text::join(
            boxed_spec(
                "dmux help"@,
                help_popup_content_spec(crate::cli::attach_overlay_text()),
                None,
                None,
            ),
            '\n',
        ),
{
    let content = attach_help_popup_content();
    let lines = boxed_popup_lines("dmux help", content.as_slice(), None, None);
    join_strings(&lines, '\n')
}

fn join_strings(parts: &Vec<String>, sep: char) -> (r: String)
    ensures
        r@ == crate::text::join(strings_view(parts@), sep),
{
    let ghost pv = strings_view(parts@);
    let mut out = String::new();
    let mut k: usize = 0;
    while k < parts.len()
        invariant
            k <= parts@.len(),
            pv == strings_view(parts@),
            out@ == crate::text::join(pv.take(k as int), sep),
        decreases parts.len() - k,
    {
        proof {
            assert(pv.take(k + 1).drop_last() =~= pv.take(k as int));
            assert(pv.take(k + 1).last() == parts@[k as int]@);
            if k == 0 {
                assert(pv.take(1) =~= seq![parts@[0]@]);
            }
        }
        if k > 0 {
            push_char(&mut out, sep);
        }
        out.append(parts[k].as_str());
        k += 1;
    }
    assert(pv.take(k as int) =~= pv);
    out
}

/// The command prompt line: the command typed so far, then the keys that
/// act on it.
pub open spec fn prompt_text_spec(command: Seq<char>) -> Seq<char> {
    ":"@ + command
        + "  (Enter run | Esc/C-c cancel | Backspace edit | examples: split -h; layout tiled; source-file path)"@
}

/// The command prompt line for a command typed so far.
pub fn attach_command_prompt_text(command: &str) -> (r: String)
    ensures
        r@ == prompt_text_spec(command@),
{
    let mut out = String::from_str(":");
    out.append(command);
    out.append(
        "  (Enter run | Esc/C-c cancel | Backspace edit | examples: split -h; layout tiled; source-file path)",
    );
    out
}

/// The command prompt line cut to the terminal's width.
pub fn attach_command_prompt_display_text(command: &str, width: Option<usize>) -> (r: String)
    ensures
        r@ == truncate_spec(prompt_text_spec(command@), width),
{
    let t = attach_command_prompt_text(command);
    truncate_header_line(t.as_str(), width)
}

} // verus!
