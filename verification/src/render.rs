//! Repainting a live client from render frames: the first frame, or one
//! whose layout changed, is written whole; later frames only rewrite the
//! rows that changed, then restore the cursor.

use vstd::prelude::*;
use vstd::string::*;
use crate::frames::{AttachPaneRegion, AttachRenderFrame};
use crate::text::{all_digits, ascii_bytes, chars_of, decimal, is_digit, lemma_decimal_digits, usize_string};

verus! {

/// `ESC [ H`: the cursor to the top left corner.
pub open spec fn cursor_home() -> Seq<u8> {
    seq![27u8, 91u8, 72u8]
}

/// `ESC [ 0 m`: plain style.
pub open spec fn reset_style() -> Seq<u8> {
    seq![27u8, 91u8, 48u8, 109u8]
}

/// `ESC [ ? 2 5 h`: show the cursor.
pub open spec fn show_cursor() -> Seq<u8> {
    seq![27u8, 91u8, 63u8, 50u8, 53u8, 104u8]
}

/// `ESC [ ? 2 5 l`: hide the cursor.
pub open spec fn hide_cursor() -> Seq<u8> {
    seq![27u8, 91u8, 63u8, 50u8, 53u8, 108u8]
}

/// Whether a byte is an ASCII digit.
pub open spec fn digit_byte(b: u8) -> bool {
    48 <= b <= 57
}

/// Whether `s` is nonempty and all ASCII digits.
pub open spec fn digit_run(s: Seq<u8>) -> bool {
    s.len() > 0 && forall|i: int| 0 <= i < s.len() ==> digit_byte(#[trigger] s[i])
}

/// Whether `s` is exactly a cursor-position escape: `ESC [`, digits, `;`,
/// digits, `H`.
pub open spec fn is_cursor_position(s: Seq<u8>) -> bool {
    exists|k: int|
        #![trigger s[k]]
        2 < k < s.len() - 2 && s[0] == 27u8 && s[1] == 91u8 && s[k] == 59u8 && s.last() == 72u8
            && digit_run(s.subrange(2, k)) && digit_run(s.subrange(k + 1, s.len() - 1))
}

/// Where the cursor state that ends a render output starts: the
/// cursor-position escape that ends it, with a show or hide escape just
/// before it; `None` when the output does not end so.
pub open spec fn cursor_split(output: Seq<u8>) -> Option<int> {
    if exists|p: int| 0 <= p < output.len() && is_cursor_position(output.skip(p)) {
        let p = choose|p: int| 0 <= p < output.len() && is_cursor_position(output.skip(p));
        let before = output.take(p);
        if p >= 6 && (before.skip(p - 6) == show_cursor() || before.skip(p - 6) == hide_cursor()) {
            Some(p - 6)
        } else {
            Some(p)
        }
    } else {
        None
    }
}

/// The pieces of `s` between occurrences of `sep`.
pub open spec fn split_bytes(s: Seq<u8>, sep: u8) -> Seq<Seq<u8>>
    decreases s.len(),
{
    if s.len() == 0 {
        seq![Seq::<u8>::empty()]
    } else {
        let p = split_bytes(s.drop_last(), sep);
        if s.last() == sep {
            p.push(Seq::<u8>::empty())
        } else {
            p.update(p.len() - 1, p.last().push(s.last()))
        }
    }
}

/// A row without one trailing carriage return.
pub open spec fn strip_cr_byte(row: Seq<u8>) -> Seq<u8> {
    if row.len() > 0 && row.last() == 13u8 {
        row.drop_last()
    } else {
        row
    }
}

/// The rows of a render output: split at newlines, a carriage return
/// before each newline dropped.
pub open spec fn output_rows(s: Seq<u8>) -> Seq<Seq<u8>> {
    split_bytes(s, 10u8).map_values(|r: Seq<u8>| strip_cr_byte(r))
}

/// The rows and the cursor state of a render output that starts at the
/// top left corner; `None` for one that does not.
pub open spec fn parse_render_spec(output: Seq<u8>) -> Option<(Seq<Seq<u8>>, Seq<u8>)> {
    if output.len() >= 3 && output.take(3) == cursor_home() {
        let body = output.skip(3);
        match cursor_split(body) {
            Some(c) => Some((output_rows(body.take(c)), body.skip(c))),
            None => Some((output_rows(body), Seq::empty())),
        }
    } else {
        None
    }
}

/// The bytes that move the cursor to the one-based cell `(row, col)`.
pub open spec fn cursor_position_bytes(row: nat, col: nat) -> Seq<u8> {
    seq![27u8, 91u8] + ascii_bytes(decimal(row)) + seq![59u8] + ascii_bytes(decimal(col)) + seq![72u8]
}

fn push_decimal(output: &mut Vec<u8>, n: usize)
    ensures
        final(output)@ == old(output)@ + ascii_bytes(decimal(n as nat)),
{
    let s = usize_string(n);
    let v = chars_of(s.as_str());
    proof {
        lemma_decimal_digits(n as nat);
    }
    let ghost start = output@;
    let mut i: usize = 0;
    while i < v.len()
        invariant
            i <= v@.len(),
            v@ == decimal(n as nat),
            all_digits(v@),
            output@ == start + ascii_bytes(v@.take(i as int)),
        decreases v.len() - i,
    {
        let c = v[i];
        assert(is_digit(v@[i as int]));
        let b = (c as u32) as u8;
        output.push(b);
        proof {
            assert(ascii_bytes(v@.take(i + 1)) =~= ascii_bytes(v@.take(i as int)).push(b));
        }
        i += 1;
    }
    assert(v@.take(i as int) =~= v@);
}

/// Appends the escape that moves the cursor to the one-based cell
/// `(row, col)`.
pub fn write_absolute_cursor_position(output: &mut Vec<u8>, row: usize, col: usize)
    ensures
        final(output)@ == old(output)@ + cursor_position_bytes(row as nat, col as nat),
{
    let ghost start = output@;
    output.push(27u8);
    output.push(91u8);
    push_decimal(output, row);
    output.push(59u8);
    push_decimal(output, col);
    output.push(72u8);
    assert(output@ =~= start + cursor_position_bytes(row as nat, col as nat));
}

/// A render output written whole: plain style, then the output.
pub fn full_live_render_output(output: &[u8]) -> (r: Vec<u8>)
    ensures
        r@ == reset_style() + output@,
{
    let mut framed: Vec<u8> = Vec::new();
    framed.push(27u8);
    framed.push(91u8);
    framed.push(48u8);
    framed.push(109u8);
    let mut i: usize = 0;
    while i < output.len()
        invariant
            i <= output@.len(),
            framed@ == reset_style() + output@.take(i as int),
        decreases output.len() - i,
    {
        framed.push(output[i]);
        assert(output@.take(i + 1) =~= output@.take(i as int).push(output@[i as int]));
        i += 1;
    }
    assert(output@.take(i as int) =~= output@);
    framed
}

pub proof fn lemma_split_bytes_nonempty(s: Seq<u8>, sep: u8)
    ensures
        split_bytes(s, sep).len() >= 1,
    decreases s.len(),
{
    if s.len() > 0 {
        lemma_split_bytes_nonempty(s.drop_last(), sep);
    }
}

fn take_bytes(v: &[u8], start: usize, end: usize) -> (r: Vec<u8>)
    requires
        start <= end <= v@.len(),
    ensures
        r@ == v@.subrange(start as int, end as int),
{
    let mut out: Vec<u8> = Vec::new();
    let mut i = start;
    while i < end
        invariant
            start <= i <= end <= v@.len(),
            out@ == v@.subrange(start as int, i as int),
        decreases end - i,
    {
        out.push(v[i]);
        i += 1;
    }
    out
}

fn strip_cr_vec(row: Vec<u8>) -> (r: Vec<u8>)
    ensures
        r@ == strip_cr_byte(row@),
{
    if row.len() > 0 && row[row.len() - 1] == 13u8 {
        let t = take_bytes(row.as_slice(), 0, row.len() - 1);
        assert(t@ =~= row@.drop_last());
        t
    } else {
        row
    }
}

/// The rows of a render output, split at newlines with a carriage return
/// before each newline dropped.
pub fn split_render_output_rows(v: &[u8]) -> (r: Vec<Vec<u8>>)
    ensures
        r@.len() == output_rows(v@).len(),
        forall|i: int| 0 <= i < r@.len() ==> (#[trigger] r@[i])@ == output_rows(v@)[i],
{
    let mut parts: Vec<Vec<u8>> = Vec::new();
    let mut cur: Vec<u8> = Vec::new();
    let mut i: usize = 0;
    assert(v@.take(0) =~= Seq::<u8>::empty());
    while i < v.len()
        invariant
            i <= v.len(),
            parts@.len() + 1 == split_bytes(v@.take(i as int), 10u8).len(),
            forall|k: int|
                0 <= k < parts@.len() ==> (#[trigger] parts@[k])@ == strip_cr_byte(
                    split_bytes(v@.take(i as int), 10u8)[k],
                ),
            cur@ == split_bytes(v@.take(i as int), 10u8).last(),
        decreases v.len() - i,
    {
        let ghost prev = v@.take(i as int);
        assert(v@.take(i + 1).drop_last() == prev);
        assert(v@.take(i + 1).last() == v@[i as int]);
        proof {
            lemma_split_bytes_nonempty(prev, 10u8);
        }
        if v[i] == 10u8 {
            let mut done: Vec<u8> = Vec::new();
            std::mem::swap(&mut done, &mut cur);
            let done = strip_cr_vec(done);
            parts.push(done);
        } else {
            cur.push(v[i]);
        }
        i += 1;
    }
    assert(v@.take(v.len() as int) == v@);
    let last = strip_cr_vec(cur);
    parts.push(last);
    parts
}

/// A cursor-position escape holds no escape byte past its first.
proof fn lemma_cursor_position_inner(t: Seq<u8>, j: int)
    requires
        is_cursor_position(t),
        1 <= j < t.len(),
    ensures
        t[j] != 27u8,
{
    let k = choose|k: int|
        #![trigger t[k]]
        2 < k < t.len() - 2 && t[0] == 27u8 && t[1] == 91u8 && t[k] == 59u8 && t.last() == 72u8
            && digit_run(t.subrange(2, k)) && digit_run(t.subrange(k + 1, t.len() - 1));
    if 2 <= j < k {
        assert(digit_byte(t.subrange(2, k)[j - 2]));
    } else if k < j < t.len() - 1 {
        assert(digit_byte(t.subrange(k + 1, t.len() - 1)[j - k - 1]));
    }
}

/// At most one place of an output starts a cursor-position escape that
/// ends it.
proof fn lemma_cursor_position_unique(s: Seq<u8>, p: int, q: int)
    requires
        0 <= p < s.len(),
        0 <= q < s.len(),
        is_cursor_position(s.skip(p)),
        is_cursor_position(s.skip(q)),
    ensures
        p == q,
{
    if p < q {
        assert(s.skip(q)[0] == 27u8);
        assert(s.skip(p)[q - p] == s.skip(q)[0]);
        lemma_cursor_position_inner(s.skip(p), q - p);
    } else if q < p {
        assert(s.skip(p)[0] == 27u8);
        assert(s.skip(q)[p - q] == s.skip(p)[0]);
        lemma_cursor_position_inner(s.skip(q), p - q);
    }
}

fn digits_end(s: &[u8], from: usize) -> (r: usize)
    requires
        from <= s@.len(),
    ensures
        from <= r <= s@.len(),
        forall|i: int| from <= i < r ==> digit_byte(#[trigger] s@[i]),
        r < s@.len() ==> !digit_byte(s@[r as int]),
{
    let mut i = from;
    while i < s.len() && s[i] >= 48u8 && s[i] <= 57u8
        invariant
            from <= i <= s@.len(),
            forall|j: int| from <= j < i ==> digit_byte(#[trigger] s@[j]),
        decreases s.len() - i,
    {
        i += 1;
    }
    i
}

/// Whether the output from `start` on is exactly a cursor-position escape.
fn cursor_position_at(s: &[u8], start: usize) -> (r: bool)
    requires
        start < s@.len(),
    ensures
        r == is_cursor_position(s@.skip(start as int)),
{
    let ghost t = s@.skip(start as int);
    if !(s.len() >= 3 && start < s.len() - 2 && s[start] == 27u8 && s[start + 1] == 91u8) {
        proof {
            if is_cursor_position(t) {
                let k = choose|k: int|
                    #![trigger t[k]]
                    2 < k < t.len() - 2 && t[0] == 27u8 && t[1] == 91u8 && t[k] == 59u8
                        && t.last() == 72u8 && digit_run(t.subrange(2, k)) && digit_run(
                        t.subrange(k + 1, t.len() - 1),
                    );
                assert(t[0] == s@[start as int] && t[1] == s@[start + 1]);
            }
        }
        return false;
    }
    let j = digits_end(s, start + 2);
    let m = if j < s.len() && s[j] == 59u8 {
        digits_end(s, j + 1)
    } else {
        j
    };
    let ok = j > start + 2 && j < s.len() && s[j] == 59u8 && m > j + 1 && m == s.len() - 1 && s[m]
        == 72u8;
    proof {
        let kk = j - start;
        if ok {
            assert(t.subrange(2, kk) =~= s@.subrange(start + 2, j as int));
            assert(t.subrange(kk + 1, t.len() - 1) =~= s@.subrange(j + 1, m as int));
            assert(t[kk] == 59u8);
            assert(digit_run(t.subrange(2, kk)));
            assert(digit_run(t.subrange(kk + 1, t.len() - 1)));
            assert(t.last() == s@[m as int]);
        }
        if is_cursor_position(t) {
            let k = choose|k: int|
                #![trigger t[k]]
                2 < k < t.len() - 2 && t[0] == 27u8 && t[1] == 91u8 && t[k] == 59u8 && t.last()
                    == 72u8 && digit_run(t.subrange(2, k)) && digit_run(t.subrange(k + 1, t.len() - 1));
            assert forall|i: int| 2 <= i < k implies digit_byte(#[trigger] t[i]) by {
                assert(t[i] == t.subrange(2, k)[i - 2]);
            }
            assert forall|i: int| k + 1 <= i < t.len() - 1 implies digit_byte(#[trigger] t[i]) by {
                assert(t[i] == t.subrange(k + 1, t.len() - 1)[i - k - 1]);
            }
            if j < start + k {
                assert(t[j - start] == s@[j as int]);
                assert(!digit_byte(s@[j as int]));
                assert(digit_byte(t[j - start]));
            }
            if j > start + k {
                assert(digit_byte(s@[start + k]));
                assert(t[k] == s@[start + k]);
            }
            assert(j == start + k);
            if m < s.len() - 1 {
                assert(t[m - start] == s@[m as int]);
                assert(!digit_byte(s@[m as int]));
                assert(digit_byte(t[m - start]));
            }
            if m == s.len() {
                assert(t[t.len() - 1] == s@[s.len() - 1]);
                assert(digit_byte(s@[s.len() - 1]));
            }
            assert(t.len() - 1 == s.len() - 1 - start);
            assert(s@[m as int] == t.last());
        }
    }
    ok
}

/// Whether `v[..end]` ends with `tail`.
fn ends_with_at(v: &[u8], end: usize, tail: &[u8]) -> (r: bool)
    requires
        end <= v@.len(),
    ensures
        r == (end >= tail@.len() && v@.take(end as int).skip(end - tail@.len()) == tail@),
{
    if end < tail.len() {
        return false;
    }
    let start = end - tail.len();
    let mut i: usize = 0;
    while i < tail.len()
        invariant
            start + tail@.len() == end <= v@.len(),
            i <= tail@.len(),
            forall|j: int| 0 <= j < i ==> v@[start + j] == tail@[j],
        decreases tail.len() - i,
    {
        if v[start + i] != tail[i] {
            assert(v@.take(end as int).skip(start as int)[i as int] == v@[start + i]);
            return false;
        }
        i += 1;
    }
    assert(v@.take(end as int).skip(start as int) =~= tail@);
    true
}

/// Where the cursor state that ends a render output starts, if it ends
/// with one.
pub fn split_trailing_cursor_position(output: &[u8]) -> (r: Option<usize>)
    ensures
        match cursor_split(output@) {
            Some(c) => r == Some(c as usize),
            None => r is None,
        },
{
    let mut i = output.len();
    while i > 0
        invariant
            i <= output@.len(),
            forall|p: int| i <= p < output@.len() ==> !is_cursor_position(#[trigger] output@.skip(p)),
        decreases i,
    {
        i -= 1;
        if output[i] == 27u8 && cursor_position_at(output, i) {
            proof {
                let p = choose|p: int| 0 <= p < output@.len() && is_cursor_position(output@.skip(p));
                lemma_cursor_position_unique(output@, p, i as int);
            }
            let show: [u8; 6] = [27u8, 91u8, 63u8, 50u8, 53u8, 104u8];
            let hide: [u8; 6] = [27u8, 91u8, 63u8, 50u8, 53u8, 108u8];
            assert(show@ =~= show_cursor());
            assert(hide@ =~= hide_cursor());
            if ends_with_at(output, i, &show) || ends_with_at(output, i, &hide) {
                return Some(i - 6);
            }
            return Some(i);
        }
        proof {
            if output@[i as int] != 27u8 {
                assert(output@.skip(i as int)[0] == output@[i as int]);
            }
        }
    }
    None
}

/// The rows and cursor state of a render output.
#[derive(Clone, Debug, PartialEq, Eq)]
pub struct ParsedLiveRenderOutput {
    pub rows: Vec<Vec<u8>>,
    pub cursor: Vec<u8>,
}

/// The views of a list of byte rows.
pub open spec fn rows_view(rows: Seq<Vec<u8>>) -> Seq<Seq<u8>> {
    rows.map_values(|r: Vec<u8>| r@)
}

/// Splits a render output that starts at the top left corner into its
/// rows and its trailing cursor state.
pub fn parse_live_render_output(render_output: &[u8]) -> (r: Option<ParsedLiveRenderOutput>)
    ensures
        match parse_render_spec(render_output@) {
            None => r is None,
            Some((rows, cursor)) => r matches Some(p) && rows_view(p.rows@) == rows && p.cursor@
                == cursor,
        },
{
    if !(render_output.len() >= 3 && render_output[0] == 27u8 && render_output[1] == 91u8
        && render_output[2] == 72u8) {
        proof {
            if render_output@.len() >= 3 && render_output@.take(3) == cursor_home() {
                assert(render_output@.take(3)[0] == render_output@[0]);
                assert(render_output@.take(3)[1] == render_output@[1]);
                assert(render_output@.take(3)[2] == render_output@[2]);
            }
        }
        return None;
    }
    assert(render_output@.take(3) =~= cursor_home());
    let body = take_bytes(render_output, 3, render_output.len());
    assert(body@ =~= render_output@.skip(3));
    let (rows_part, cursor) = match split_trailing_cursor_position(body.as_slice()) {
        Some(c) => (take_bytes(body.as_slice(), 0, c), take_bytes(body.as_slice(), c, body.len())),
        None => (body.clone(), Vec::new()),
    };
    proof {
        match cursor_split(body@) {
            Some(c) => {
                assert(rows_part@ =~= body@.take(c));
                assert(cursor@ =~= body@.skip(c));
            },
            None => {
                assert(rows_part@ =~= body@);
            },
        }
    }
    let rows = split_render_output_rows(rows_part.as_slice());
    assert(rows_view(rows@) =~= output_rows(rows_part@));
    Some(ParsedLiveRenderOutput { rows, cursor })
}

/// The layout a render frame was drawn for.
#[derive(Clone, Debug, PartialEq, Eq)]
pub struct LiveRenderOutputGeometry {
    pub header_rows: usize,
    pub regions: Vec<AttachPaneRegion>,
}

/// What a live client remembers of the last frame it painted.
#[derive(Debug)]
pub struct LiveRenderOutputState {
    pub rows: Option<Vec<Vec<u8>>>,
    pub cursor: Vec<u8>,
    pub geometry: Option<LiveRenderOutputGeometry>,
}

/// The remembered frame as values: its rows, its cursor state and its
/// layout (header rows and regions).
pub struct RenderMemory {
    pub rows: Option<Seq<Seq<u8>>>,
    pub cursor: Seq<u8>,
    pub geometry: Option<(usize, Seq<AttachPaneRegion>)>,
}

impl View for LiveRenderOutputState {
    type V = RenderMemory;

    open spec fn view(&self) -> RenderMemory {
        RenderMemory {
            rows: match self.rows {
                Some(r) => Some(rows_view(r@)),
                None => None,
            },
            cursor: self.cursor@,
            geometry: match self.geometry {
                Some(g) => Some((g.header_rows, g.regions@)),
                None => None,
            },
        }
    }
}

/// Nothing remembered: the next frame is painted whole.
pub open spec fn empty_memory() -> RenderMemory {
    RenderMemory { rows: None, cursor: Seq::empty(), geometry: None }
}

impl Default for LiveRenderOutputState {
    fn default() -> (r: Self)
        ensures
            r@ == empty_memory(),
    {
        LiveRenderOutputState { rows: None, cursor: Vec::new(), geometry: None }
    }
}

/// Forgets the last frame, so that the next one is painted whole.
pub fn reset_live_render_output_state(state: &mut LiveRenderOutputState)
    ensures
        final(state)@ == empty_memory(),
{
    state.rows = None;
    state.cursor = Vec::new();
    state.geometry = None;
}

/// The bytes that repaint the rows among the first `n` that changed: for
/// each, the cursor to its start, plain style, then the row.
pub open spec fn changed_rows_bytes(prev: Seq<Seq<u8>>, rows: Seq<Seq<u8>>, n: nat) -> Seq<u8>
    decreases n,
{
    if n == 0 {
        Seq::empty()
    } else {
        let i = (n - 1) as int;
        changed_rows_bytes(prev, rows, (n - 1) as nat) + if prev[i] != rows[i] {
            cursor_position_bytes((i + 1) as nat, 1) + reset_style() + rows[i]
        } else {
            Seq::empty()
        }
    }
}

/// Whether one of the first `n` rows changed.
pub open spec fn some_row_changed(prev: Seq<Seq<u8>>, rows: Seq<Seq<u8>>, n: nat) -> bool {
    exists|i: int| 0 <= i < n && prev[i] != rows[i]
}

/// What painting a frame writes, and what is remembered after: a frame
/// that does not start at the top left corner is written whole and
/// forgotten; the first frame, or one whose row count or layout changed,
/// is written whole; otherwise only the changed rows are repainted, and
/// the cursor state is written when a row changed or it differs.
pub open spec fn diff_spec(
    output: Seq<u8>,
    header_rows: usize,
    regions: Seq<AttachPaneRegion>,
    m: RenderMemory,
) -> (Seq<u8>, RenderMemory) {
    match parse_render_spec(output) {
        None => (reset_style() + output, empty_memory()),
        Some((rows, cursor)) => {
            let stored = RenderMemory {
                rows: Some(rows),
                cursor,
                geometry: Some((header_rows, regions)),
            };
            match m.rows {
                None => (reset_style() + output, stored),
                Some(prev) => if prev.len() != rows.len() || m.geometry != Some(
                    (header_rows, regions),
                ) {
                    (reset_style() + output, stored)
                } else {
                    let body = changed_rows_bytes(prev, rows, rows.len());
                    if some_row_changed(prev, rows, rows.len()) || m.cursor != cursor {
                        (body + cursor, stored)
                    } else {
                        (body, stored)
                    }
                },
            }
        },
    }
}

fn bytes_eq(a: &[u8], b: &[u8]) -> (r: bool)
    ensures
        r == (a@ == b@),
{
    if a.len() != b.len() {
        return false;
    }
    let mut i: usize = 0;
    while i < a.len()
        invariant
            a@.len() == b@.len(),
            i <= a@.len(),
            forall|j: int| 0 <= j < i ==> a@[j] == b@[j],
        decreases a.len() - i,
    {
        if a[i] != b[i] {
            return false;
        }
        i += 1;
    }
    assert(a@ =~= b@);
    true
}

fn regions_eq(a: &[AttachPaneRegion], b: &[AttachPaneRegion]) -> (r: bool)
    ensures
        r == (a@ == b@),
{
    if a.len() != b.len() {
        return false;
    }
    let mut i: usize = 0;
    while i < a.len()
        invariant
            a@.len() == b@.len(),
            i <= a@.len(),
            forall|j: int| 0 <= j < i ==> a@[j] == b@[j],
        decreases a.len() - i,
    {
        if a[i] != b[i] {
            return false;
        }
        i += 1;
    }
    assert(a@ =~= b@);
    true
}

fn copy_regions(a: &[AttachPaneRegion]) -> (r: Vec<AttachPaneRegion>)
    ensures
        r@ == a@,
{
    let mut out: Vec<AttachPaneRegion> = Vec::new();
    let mut i: usize = 0;
    while i < a.len()
        invariant
            i <= a@.len(),
            out@ == a@.take(i as int),
        decreases a.len() - i,
    {
        out.push(a[i]);
        assert(a@.take(i + 1) =~= a@.take(i as int).push(a@[i as int]));
        i += 1;
    }
    assert(a@.take(i as int) =~= a@);
    out
}

fn append_bytes(out: &mut Vec<u8>, b: &[u8])
    ensures
        final(out)@ == old(out)@ + b@,
{
    let ghost start = out@;
    let mut i: usize = 0;
    while i < b.len()
        invariant
            i <= b@.len(),
            out@ == start + b@.take(i as int),
        decreases b.len() - i,
    {
        out.push(b[i]);
        assert(b@.take(i + 1) =~= b@.take(i as int).push(b@[i as int]));
        i += 1;
    }
    assert(b@.take(i as int) =~= b@);
}

/// Paints a frame against what was painted before: the bytes to write,
/// with the frame remembered for the next one.
pub fn diff_live_render_output(frame: &AttachRenderFrame, state: &mut LiveRenderOutputState) -> (r: Vec<u8>)
    ensures
        (r@, final(state)@) == diff_spec(
            frame.output@,
            frame.header_rows,
            frame.regions@,
            old(state)@,
        ),
{
    let parsed = match parse_live_render_output(frame.output.as_slice()) {
        Some(p) => p,
        None => {
            reset_live_render_output_state(state);
            return full_live_render_output(frame.output.as_slice());
        },
    };
    let regions = copy_regions(frame.regions.as_slice());
    let same_layout = match &state.geometry {
        Some(g) => g.header_rows == frame.header_rows && regions_eq(
            g.regions.as_slice(),
            regions.as_slice(),
        ),
        None => false,
    };
    let geometry = LiveRenderOutputGeometry { header_rows: frame.header_rows, regions };
    let ParsedLiveRenderOutput { rows, cursor } = parsed;
    let diff = match &state.rows {
        None => None,
        Some(prev) => {
            if prev.len() != rows.len() || !same_layout {
                None
            } else {
                let mut out: Vec<u8> = Vec::new();
                let mut changed = false;
                let mut i: usize = 0;
                while i < rows.len()
                    invariant
                        i <= rows@.len() == prev@.len(),
                        out@ == changed_rows_bytes(rows_view(prev@), rows_view(rows@), i as nat),
                        changed == some_row_changed(rows_view(prev@), rows_view(rows@), i as nat),
                    decreases rows.len() - i,
                {
                    let ghost pv = rows_view(prev@);
                    let ghost rv = rows_view(rows@);
                    if !bytes_eq(prev[i].as_slice(), rows[i].as_slice()) {
                        write_absolute_cursor_position(&mut out, i + 1, 1);
                        out.push(27u8);
                        out.push(91u8);
                        out.push(48u8);
                        out.push(109u8);
                        append_bytes(&mut out, rows[i].as_slice());
                        changed = true;
                        proof {
                            assert(pv[i as int] != rv[i as int]);
                        }
                    }
                    proof {
                        assert(pv[i as int] == prev@[i as int]@);
                        assert(rv[i as int] == rows@[i as int]@);
                        assert(out@ =~= changed_rows_bytes(pv, rv, (i + 1) as nat));
                        if changed {
                            if !some_row_changed(pv, rv, i as nat) {
                                assert(pv[i as int] != rv[i as int]);
                            }
                        } else {
                            assert forall|j: int| 0 <= j < i + 1 implies pv[j] == rv[j] by {
                                if j < i {
                                    if pv[j] != rv[j] {
                                        assert(some_row_changed(pv, rv, i as nat));
                                    }
                                }
                            }
                        }
                    }
                    i += 1;
                }
                if changed || !bytes_eq(state.cursor.as_slice(), cursor.as_slice()) {
                    append_bytes(&mut out, cursor.as_slice());
                }
                Some(out)
            }
        },
    };
    state.rows = Some(rows);
    state.cursor = cursor;
    state.geometry = Some(geometry);
    match diff {
        Some(out) => out,
        None => full_live_render_output(frame.output.as_slice()),
    }
}

/// No row differs from itself, so none is repainted.
proof fn lemma_unchanged_rows(rows: Seq<Seq<u8>>, n: nat)
    requires
        n <= rows.len(),
    ensures
        changed_rows_bytes(rows, rows, n) == Seq::<u8>::empty(),
        !some_row_changed(rows, rows, n),
    decreases n,
{
    if n > 0 {
        lemma_unchanged_rows(rows, (n - 1) as nat);
        assert(changed_rows_bytes(rows, rows, n) =~= Seq::<u8>::empty());
    }
}

/// Painting a frame again right after painting it writes nothing: the rows,
/// the cursor state and the layout are what was remembered.
pub proof fn law_repaint_same_frame_writes_nothing(
    output: Seq<u8>,
    header_rows: usize,
    regions: Seq<AttachPaneRegion>,
    m: RenderMemory,
)
    requires
        parse_render_spec(output) is Some,
    ensures
        diff_spec(output, header_rows, regions, diff_spec(output, header_rows, regions, m).1).0
            == Seq::<u8>::empty(),
{
    let (rows, cursor) = parse_render_spec(output).unwrap();
    lemma_unchanged_rows(rows, rows.len());
}

/// A frame painted after the memory is forgotten is written whole: plain
/// style, then the frame.
pub proof fn law_paint_after_reset_is_whole(
    output: Seq<u8>,
    header_rows: usize,
    regions: Seq<AttachPaneRegion>,
)
    ensures
        diff_spec(output, header_rows, regions, empty_memory()).0 == reset_style() + output,
{
}

} // verus!
