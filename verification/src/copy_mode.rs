//! Copy mode: a numbered list of a pane's lines with a cursor, scrolled to
//! the terminal's height, moved by keys and the mouse, and the text of the
//! lines chosen to copy.

use vstd::prelude::*;
use vstd::string::*;
use crate::keys::{
    copy_mode_csi_spec, csi_len_spec, incomplete_csi_spec, incomplete_sgr_spec, sgr_event_spec,
    complete_csi_sequence_len, is_incomplete_copy_mode_csi_key, is_incomplete_sgr_mouse_event,
    parse_copy_mode_csi_key, parse_sgr_mouse_event, SgrMouseEvent,
};
use crate::text::{
    chars_of, decimal, find_char, find_char_index, lines_of, parse_unsigned, parse_usize_chars,
    push_char, string_from_chars, sub_chars, text_lines, usize_string,
};

verus! {

/// What a key or mouse report asks of copy mode.
#[derive(Debug, Clone, Copy, PartialEq, Eq, Structural)]
pub enum CopyModeAction {
    Redraw,
    CopyLine(usize),
    CopyLineRange { start: usize, end: usize },
    Exit,
    Ignore,
}

/// A line of copy mode: its number in the pane and its text.
#[derive(Debug, Clone)]
pub struct CopyModeLine {
    pub number: usize,
    pub text: String,
}

/// The lines of copy mode with the cursor, the first line shown, the
/// terminal's height and where a mouse selection started.
#[derive(Debug)]
pub struct CopyModeView {
    lines: Vec<CopyModeLine>,
    cursor: usize,
    viewport: usize,
    height: usize,
    selection_anchor: Option<usize>,
}

/// Copy mode as values: each line's number and text, the cursor, the first
/// line shown, the height, and the selection's anchor.
pub struct CopyModeState {
    pub lines: Seq<(usize, Seq<char>)>,
    pub cursor: nat,
    pub viewport: nat,
    pub height: nat,
    pub anchor: Option<nat>,
}

/// The lines of copy mode as values.
pub open spec fn lines_view(lines: Seq<CopyModeLine>) -> Seq<(usize, Seq<char>)> {
    lines.map_values(|l: CopyModeLine| (l.number, l.text@))
}

impl View for CopyModeView {
    type V = CopyModeState;

    closed spec fn view(&self) -> CopyModeState {
        CopyModeState {
            lines: lines_view(self.lines@),
            cursor: self.cursor as nat,
            viewport: self.viewport as nat,
            height: self.height as nat,
            anchor: match self.selection_anchor {
                Some(a) => Some(a as nat),
                None => None,
            },
        }
    }
}

/// What holds of every copy-mode state: the cursor and the anchor are on a
/// line (the cursor is at the top when there are none), the first line
/// shown is within the list, and the height is at least two rows.
pub open spec fn copy_wf(s: CopyModeState) -> bool {
    &&& (s.cursor < s.lines.len() || (s.lines.len() == 0 && s.cursor == 0))
    &&& s.viewport <= s.lines.len()
    &&& s.height >= 2
    &&& s.height <= usize::MAX
    &&& s.lines.len() <= usize::MAX
    &&& (s.anchor matches Some(a) ==> a < s.lines.len())
}

/// `a - b`, or zero when `b` is larger.
pub open spec fn sat_sub(a: nat, b: nat) -> nat {
    if a >= b {
        (a - b) as nat
    } else {
        0
    }
}

/// The lines the view shows below its title: one row less than the height,
/// and at least one.
pub open spec fn visible_count(height: nat) -> nat {
    let v = sat_sub(height, 1);
    if v >= 1 {
        v
    } else {
        1
    }
}

/// The first line shown once the cursor is brought into view and the view
/// kept from scrolling past the end.
pub open spec fn viewport_for(cursor: nat, viewport: nat, height: nat, len: nat) -> nat {
    let visible = visible_count(height);
    let v = if cursor < viewport {
        cursor
    } else if cursor >= viewport + visible {
        (cursor + 1 - visible) as nat
    } else {
        viewport
    };
    let max = sat_sub(len, visible);
    if v < max {
        v
    } else {
        max
    }
}

/// The state with the cursor on a line, brought into view.
pub open spec fn with_cursor(s: CopyModeState, cursor: nat) -> CopyModeState {
    CopyModeState {
        cursor,
        viewport: viewport_for(cursor, s.viewport, s.height, s.lines.len()),
        ..s
    }
}

/// Moving the cursor to a line, clipped to the last: nothing to do when
/// there are no lines or the cursor is already there; else a redraw.
pub open spec fn move_spec(s: CopyModeState, target: nat) -> (CopyModeAction, CopyModeState) {
    if s.lines.len() == 0 {
        (CopyModeAction::Ignore, s)
    } else {
        let c = if target < s.lines.len() - 1 {
            target
        } else {
            (s.lines.len() - 1) as nat
        };
        if c == s.cursor {
            (CopyModeAction::Ignore, s)
        } else {
            (CopyModeAction::Redraw, with_cursor(s, c))
        }
    }
}

/// What a key does: `j`/C-n down, `k`/C-p up, C-f and C-b a page, `g` and
/// `G` to the ends, `y` or Enter copies the cursor's line, `q` or escape
/// leaves; other keys do nothing.
pub open spec fn key_spec(s: CopyModeState, byte: u8) -> (CopyModeAction, CopyModeState) {
    let page = visible_count(s.height);
    if byte == 106u8 || byte == 0x0eu8 {
        move_spec(s, s.cursor + 1)
    } else if byte == 107u8 || byte == 0x10u8 {
        move_spec(s, sat_sub(s.cursor, 1))
    } else if byte == 0x06u8 {
        move_spec(
            s,
            if s.cursor + page > usize::MAX {
                usize::MAX as nat
            } else {
                s.cursor + page
            },
        )
    } else if byte == 0x02u8 {
        move_spec(s, sat_sub(s.cursor, page))
    } else if byte == 103u8 {
        move_spec(s, 0)
    } else if byte == 71u8 {
        move_spec(s, sat_sub(s.lines.len(), 1))
    } else if byte == 121u8 || byte == 13u8 || byte == 10u8 {
        if s.cursor < s.lines.len() {
            (CopyModeAction::CopyLine(s.lines[s.cursor as int].0), s)
        } else {
            (CopyModeAction::Ignore, s)
        }
    } else if byte == 113u8 || byte == 27u8 {
        (CopyModeAction::Exit, s)
    } else {
        (CopyModeAction::Ignore, s)
    }
}

/// The line a mouse row points at: rows start below the title row.
pub open spec fn line_for_row(s: CopyModeState, row: u16) -> Option<nat> {
    if row < 2 {
        None
    } else {
        let index = s.viewport + row - 2;
        if index < s.lines.len() {
            Some(index as nat)
        } else {
            None
        }
    }
}

/// Two indexes, smaller first.
pub open spec fn ordered(a: nat, b: nat) -> (nat, nat) {
    if a <= b {
        (a, b)
    } else {
        (b, a)
    }
}

/// What a mouse report does: a release ends a selection (forgetting its
/// anchor) and copies the lines from the anchor to the released line; a
/// drag moves the cursor while a selection is under way; a left press
/// starts a selection at its line.
pub open spec fn mouse_spec(s: CopyModeState, event: SgrMouseEvent) -> (CopyModeAction, CopyModeState) {
    if event.release {
        match s.anchor {
            None => (CopyModeAction::Ignore, s),
            Some(anchor) => {
                let t = CopyModeState { anchor: None, ..s };
                if event.col == 0 {
                    (CopyModeAction::Ignore, t)
                } else {
                    match line_for_row(t, event.row) {
                        None => (CopyModeAction::Ignore, t),
                        Some(index) => {
                            let (a, b) = ordered(anchor, index);
                            (
                                CopyModeAction::CopyLineRange {
                                    start: s.lines[a as int].0,
                                    end: s.lines[b as int].0,
                                },
                                with_cursor(t, index),
                            )
                        },
                    }
                }
            },
        }
    } else if event.col == 0 {
        (CopyModeAction::Ignore, s)
    } else {
        match line_for_row(s, event.row) {
            None => (CopyModeAction::Ignore, s),
            Some(index) => if (event.code / 32) % 2 == 1 {
                if s.anchor is Some {
                    (CopyModeAction::Redraw, with_cursor(s, index))
                } else {
                    (CopyModeAction::Ignore, s)
                }
            } else if event.code % 4 == 0 {
                (CopyModeAction::Redraw, with_cursor(CopyModeState { anchor: Some(index), ..s }, index))
            } else {
                (CopyModeAction::Ignore, s)
            },
        }
    }
}

/// The mark before a shown line: `>` at the cursor, `*` inside the
/// selection, else a space.
pub open spec fn row_mark(s: CopyModeState, index: nat) -> char {
    if index == s.cursor {
        '>'
    } else if (s.anchor matches Some(a) && {
        let (lo, hi) = ordered(a, s.cursor);
        lo <= index <= hi
    }) {
        '*'
    } else {
        ' '
    }
}

/// The shown lines from `viewport` for `count` lines.
pub open spec fn shown_rows(s: CopyModeState, count: nat) -> Seq<char>
    decreases count,
{
    if count == 0 {
        Seq::empty()
    } else {
        let index = s.viewport + count - 1;
        let (number, text) = s.lines[index as int];
        shown_rows(s, (count - 1) as nat) + seq![row_mark(s, index as nat), ' '] + decimal(number as nat)
            + seq!['\t'] + text + "\r\n"@
    }
}

/// What copy mode draws: the screen cleared, a title row, then the lines
/// in view, each marked and numbered.
pub open spec fn render_spec(s: CopyModeState) -> Seq<char> {
    let end = if s.viewport + visible_count(s.height) < s.lines.len() {
        s.viewport + visible_count(s.height)
    } else {
        s.lines.len() as nat
    };
    "\x1b[2J\x1b[H-- copy mode --\r\n"@ + shown_rows(s, sat_sub(end, s.viewport))
}

/// The text of the lines whose numbers fall between two bounds (either
/// order), each ended by a newline.
pub open spec fn selected_spec(lines: Seq<(usize, Seq<char>)>, lo: nat, hi: nat) -> Seq<char>
    decreases lines.len(),
{
    if lines.len() == 0 {
        Seq::empty()
    } else {
        let done = selected_spec(lines.drop_last(), lo, hi);
        let (number, text) = lines.last();
        if lo <= number <= hi {
            done + text.push('\n')
        } else {
            done
        }
    }
}

/// The lines a numbered capture gives: for each line with a tab, the
/// number before it and the text after; lines without a tab are skipped.
pub open spec fn numbered_lines_spec(lines: Seq<Seq<char>>) -> Result<Seq<(usize, Seq<char>)>, Seq<char>>
    decreases lines.len(),
{
    if lines.len() == 0 {
        Ok(Seq::empty())
    } else {
        match numbered_lines_spec(lines.drop_last()) {
            Err(e) => Err(e),
            Ok(done) => {
                let l = lines.last();
                match find_char(l, '\t') {
                    None => Ok(done),
                    Some(i) => match parse_unsigned(l.take(i), usize::MAX as nat) {
                        None => Err("invalid copy-mode line number"@),
                        Some(n) => Ok(done.push((n as usize, l.skip(i + 1)))),
                    },
                }
            },
        }
    }
}

/// A text with each `\r\n` made `\n`, left to right.
pub open spec fn crlf_to_lf(s: Seq<char>) -> Seq<char>
    decreases s.len(),
{
    if s.len() == 0 {
        Seq::empty()
    } else if s.len() >= 2 && s[0] == '\r' && s[1] == '\n' {
        seq!['\n'] + crlf_to_lf(s.skip(2))
    } else {
        seq![s[0]] + crlf_to_lf(s.drop_first())
    }
}

/// The pieces of a text between newlines, without an empty piece after a
/// final newline (std's `split_terminator`).
pub open spec fn terminated_pieces(s: Seq<char>) -> Seq<Seq<char>> {
    let p = crate::text::split(s, '\n');
    if p.last().len() == 0 {
        p.drop_last()
    } else {
        p
    }
}

/// The plain lines of a text numbered from one.
pub open spec fn plain_lines_spec(text: Seq<char>) -> Seq<(usize, Seq<char>)> {
    let p = terminated_pieces(crlf_to_lf(text));
    Seq::new(p.len(), |i: int| ((i + 1) as usize, p[i]))
}

/// A fresh view of some lines: cursor and view at the top, 24 rows, no
/// selection.
pub open spec fn fresh_view(lines: Seq<(usize, Seq<char>)>) -> CopyModeState {
    CopyModeState { lines, cursor: 0, viewport: 0, height: 24, anchor: None }
}

impl CopyModeView {
    /// The view as values.
    pub closed spec fn state(&self) -> CopyModeState {
        self@
    }

    /// Copy mode over a numbered capture: `<number>\t<text>` lines.
    pub fn from_numbered_output(output: &str) -> (r: Result<CopyModeView, String>)
        ensures
            match numbered_lines_spec(text_lines(output@)) {
                Ok(lines) => r matches Ok(v) && v@ == fresh_view(lines) && copy_wf(v@),
                Err(e) => r matches Err(m) && m@ == e,
            },
    {
        let chars = chars_of(output);
        let ls = lines_of(&chars);
        let ghost tl = text_lines(output@);
        let mut lines: Vec<CopyModeLine> = Vec::new();
        let mut k: usize = 0;
        assert(tl.take(0) =~= Seq::<Seq<char>>::empty());
        assert(lines_view(lines@) =~= Seq::<(usize, Seq<char>)>::empty());
        while k < ls.len()
            invariant
                k <= ls@.len() == tl.len(),
                tl == text_lines(output@),
                forall|j: int| 0 <= j < ls@.len() ==> (#[trigger] ls@[j])@ == tl[j],
                numbered_lines_spec(tl.take(k as int)) == Ok::<Seq<(usize, Seq<char>)>, Seq<char>>(
                    lines_view(lines@),
                ),
            decreases ls.len() - k,
        {
            assert(tl.take(k + 1).drop_last() =~= tl.take(k as int));
            assert(tl.take(k + 1).last() == ls@[k as int]@);
            let l = &ls[k];
            match find_char_index(l.as_slice(), '\t') {
                None => {},
                Some(i) => {
                    let head = sub_chars(l.as_slice(), 0, i);
                    let tail = sub_chars(l.as_slice(), i + 1, l.len());
                    assert(head@ == l@.take(i as int));
                    assert(tail@ == l@.skip(i + 1));
                    match parse_usize_chars(head.as_slice()) {
                        None => {
                            proof {
                                lemma_numbered_err(tl, (k + 1) as int);
                            }
                            return Err(String::from_str("invalid copy-mode line number"));
                        },
                        Some(n) => {
                            let ghost before = lines@;
                            lines.push(CopyModeLine { number: n, text: string_from_chars(tail.as_slice()) });
                            assert(lines_view(lines@) =~= lines_view(before).push((n, tail@)));
                        },
                    }
                },
            }
            k += 1;
        }
        assert(tl.take(k as int) =~= tl);
        let v = CopyModeView { lines, cursor: 0, viewport: 0, height: 24, selection_anchor: None };
        let n = v.lines.len();
        assert(v@ == fresh_view(lines_view(v.lines@)));
        assert(v@.lines.len() == n);
        Ok(v)
    }

    /// Copy mode over plain text: each line numbered from one.
    pub fn from_plain_text(text: &str) -> (r: Result<CopyModeView, String>)
        ensures
            r matches Ok(v) && v@ == fresh_view(plain_lines_spec(text@)) && copy_wf(v@),
    {
        let chars = chars_of(text);
        let normalized = crlf_chars(chars.as_slice());
        let parts = crate::text::split_chars(normalized.as_slice(), '\n');
        let ghost p = crate::text::split(normalized@, '\n');
        proof {
            crate::text::lemma_split_nonempty(normalized@, '\n');
        }
        let count = if parts[parts.len() - 1].len() == 0 {
            parts.len() - 1
        } else {
            parts.len()
        };
        let ghost tp = terminated_pieces(normalized@);
        assert(tp.len() == count);
        let mut lines: Vec<CopyModeLine> = Vec::new();
        let mut k: usize = 0;
        assert(lines_view(lines@) =~= Seq::new(0, |i: int| ((i + 1) as usize, tp[i])));
        while k < count
            invariant
                k <= count <= parts@.len(),
                parts@.len() == p.len(),
                tp == terminated_pieces(normalized@),
                p == crate::text::split(normalized@, '\n'),
                tp.len() == count,
                forall|j: int| 0 <= j < parts@.len() ==> (#[trigger] parts@[j])@ == p[j],
                forall|j: int| 0 <= j < count ==> tp[j] == p[j],
                lines_view(lines@) == Seq::new(k as nat, |i: int| ((i + 1) as usize, tp[i])),
            decreases count - k,
        {
            let ghost before = lines@;
            let line = CopyModeLine { number: k + 1, text: string_from_chars(parts[k].as_slice()) };
            assert(line.text@ == tp[k as int]);
            lines.push(line);
            assert(lines_view(lines@) =~= lines_view(before).push(((k + 1) as usize, tp[k as int])));
            assert(lines_view(lines@) =~= Seq::new((k + 1) as nat, |i: int| ((i + 1) as usize, tp[i])));
            k += 1;
        }
        Ok(CopyModeView { lines, cursor: 0, viewport: 0, height: 24, selection_anchor: None })
    }

    /// The number of the cursor's line.
    pub fn cursor_line_number(&self) -> (r: Option<usize>)
        requires
            copy_wf(self@),
        ensures
            r == (if self@.cursor < self@.lines.len() {
                Some(self@.lines[self@.cursor as int].0)
            } else {
                None::<usize>
            }),
    {
        if self.cursor < self.lines.len() {
            assert(lines_view(self.lines@)[self.cursor as int] == (
                self.lines@[self.cursor as int].number,
                self.lines@[self.cursor as int].text@,
            ));
            Some(self.lines[self.cursor].number)
        } else {
            None
        }
    }

    /// Whether there are no lines.
    pub fn is_empty(&self) -> (r: bool)
        ensures
            r == (self@.lines.len() == 0),
    {
        self.lines.len() == 0
    }

    fn visible_line_count(&self) -> (r: usize)
        ensures
            r == visible_count(self.height as nat),
    {
        let v = if self.height >= 1 {
            self.height - 1
        } else {
            0
        };
        if v >= 1 {
            v
        } else {
            1
        }
    }

    fn ensure_cursor_visible(&mut self)
        requires
            old(self).viewport <= old(self).lines@.len(),
            old(self).cursor <= old(self).lines@.len(),
        ensures
            final(self).viewport == viewport_for(
                old(self).cursor as nat,
                old(self).viewport as nat,
                old(self).height as nat,
                old(self).lines@.len(),
            ),
            final(self).viewport <= final(self).lines@.len(),
            final(self).lines == old(self).lines,
            final(self).cursor == old(self).cursor,
            final(self).height == old(self).height,
            final(self).selection_anchor == old(self).selection_anchor,
    {
        let visible = self.visible_line_count();
        if self.cursor < self.viewport {
            self.viewport = self.cursor;
        } else if self.cursor - self.viewport >= visible {
            self.viewport = self.cursor - (visible - 1);
        }
        let len = self.lines.len();
        let max = if len >= visible {
            len - visible
        } else {
            0
        };
        if self.viewport > max {
            self.viewport = max;
        }
    }

    /// Fits the view to a terminal of some height (at least two rows).
    pub fn set_height(&mut self, height: usize)
        requires
            copy_wf(old(self)@),
        ensures
            copy_wf(final(self)@),
            final(self)@ == with_cursor(
                CopyModeState {
                    height: if height >= 2 {
                        height as nat
                    } else {
                        2
                    },
                    ..old(self)@
                },
                old(self)@.cursor,
            ),
    {
        self.height = if height >= 2 {
            height
        } else {
            2
        };
        self.ensure_cursor_visible();
    }

    /// Fits the view to a terminal of some height, as a test sets it.
    pub fn set_height_for_test(&mut self, height: usize)
        requires
            copy_wf(old(self)@),
        ensures
            copy_wf(final(self)@),
            final(self)@ == with_cursor(
                CopyModeState {
                    height: if height >= 2 {
                        height as nat
                    } else {
                        2
                    },
                    ..old(self)@
                },
                old(self)@.cursor,
            ),
    {
        self.set_height(height);
    }

    fn move_cursor_to(&mut self, cursor: usize) -> (r: CopyModeAction)
        requires
            copy_wf(old(self)@),
        ensures
            copy_wf(final(self)@),
            (r, final(self)@) == move_spec(old(self)@, cursor as nat),
    {
        if self.lines.len() == 0 {
            return CopyModeAction::Ignore;
        }
        let c = if cursor < self.lines.len() - 1 {
            cursor
        } else {
            self.lines.len() - 1
        };
        if c == self.cursor {
            return CopyModeAction::Ignore;
        }
        self.cursor = c;
        self.ensure_cursor_visible();
        CopyModeAction::Redraw
    }

    /// What a key does to the view.
    pub fn apply_key(&mut self, byte: u8) -> (r: CopyModeAction)
        requires
            copy_wf(old(self)@),
        ensures
            copy_wf(final(self)@),
            (r, final(self)@) == key_spec(old(self)@, byte),
    {
        let page = self.visible_line_count();
        if byte == 106u8 || byte == 0x0eu8 {
            self.move_cursor_to(self.cursor + 1)
        } else if byte == 107u8 || byte == 0x10u8 {
            let t = if self.cursor >= 1 {
                self.cursor - 1
            } else {
                0
            };
            self.move_cursor_to(t)
        } else if byte == 0x06u8 {
            let t = if self.cursor > usize::MAX - page {
                usize::MAX
            } else {
                self.cursor + page
            };
            self.move_cursor_to(t)
        } else if byte == 0x02u8 {
            let t = if self.cursor >= page {
                self.cursor - page
            } else {
                0
            };
            self.move_cursor_to(t)
        } else if byte == 103u8 {
            self.move_cursor_to(0)
        } else if byte == 71u8 {
            let t = if self.lines.len() >= 1 {
                self.lines.len() - 1
            } else {
                0
            };
            self.move_cursor_to(t)
        } else if byte == 121u8 || byte == 13u8 || byte == 10u8 {
            match self.cursor_line_number() {
                Some(n) => CopyModeAction::CopyLine(n),
                None => CopyModeAction::Ignore,
            }
        } else if byte == 113u8 || byte == 27u8 {
            CopyModeAction::Exit
        } else {
            CopyModeAction::Ignore
        }
    }

    fn line_index_for_mouse_row(&self, row: u16) -> (r: Option<usize>)
        requires
            copy_wf(self@),
        ensures
            match line_for_row(self@, row) {
                Some(i) => r == Some(i as usize),
                None => r is None,
            },
    {
        if row < 2 {
            return None;
        }
        let r = row as usize - 2;
        if self.viewport >= self.lines.len() || r >= self.lines.len() - self.viewport {
            return None;
        }
        Some(self.viewport + r)
    }

    /// What a mouse report does to the view.
    pub fn apply_mouse_event(&mut self, event: SgrMouseEvent) -> (r: CopyModeAction)
        requires
            copy_wf(old(self)@),
        ensures
            copy_wf(final(self)@),
            (r, final(self)@) == mouse_spec(old(self)@, event),
    {
        if event.release {
            let anchor = match self.selection_anchor {
                Some(a) => a,
                None => return CopyModeAction::Ignore,
            };
            self.selection_anchor = None;
            if event.col == 0 {
                return CopyModeAction::Ignore;
            }
            let index = match self.line_index_for_mouse_row(event.row) {
                Some(i) => i,
                None => return CopyModeAction::Ignore,
            };
            self.cursor = index;
            self.ensure_cursor_visible();
            let (a, b) = if anchor <= index {
                (anchor, index)
            } else {
                (index, anchor)
            };
            assert(lines_view(self.lines@)[a as int].0 == self.lines@[a as int].number);
            assert(lines_view(self.lines@)[b as int].0 == self.lines@[b as int].number);
            return CopyModeAction::CopyLineRange {
                start: self.lines[a].number,
                end: self.lines[b].number,
            };
        }
        if event.col == 0 {
            return CopyModeAction::Ignore;
        }
        let index = match self.line_index_for_mouse_row(event.row) {
            Some(i) => i,
            None => return CopyModeAction::Ignore,
        };
        if (event.code / 32) % 2 == 1 {
            if self.selection_anchor.is_some() {
                self.cursor = index;
                self.ensure_cursor_visible();
                return CopyModeAction::Redraw;
            }
            return CopyModeAction::Ignore;
        }
        if event.code % 4 == 0 {
            self.selection_anchor = Some(index);
            self.cursor = index;
            self.ensure_cursor_visible();
            return CopyModeAction::Redraw;
        }
        CopyModeAction::Ignore
    }

    /// The text of the lines whose numbers fall between two bounds, each
    /// ended by a newline; an error when there are none.
    pub fn selected_text_for_line_range(&self, start: usize, end: usize) -> (r: Result<String, String>)
        ensures
            ({
                let (lo, hi) = ordered(start as nat, end as nat);
                let t = selected_spec(self@.lines, lo, hi);
                if t.len() > 0 {
                    r matches Ok(s) && s@ == t
                } else {
                    r matches Err(m) && m@ == "copy-mode line range is empty"@
                }
            }),
    {
        let (lo, hi) = if start <= end {
            (start, end)
        } else {
            (end, start)
        };
        let ghost lv = lines_view(self.lines@);
        let mut selected = String::new();
        let mut any = false;
        let mut i: usize = 0;
        while i < self.lines.len()
            invariant
                i <= self.lines@.len(),
                lv == lines_view(self.lines@),
                selected@ == selected_spec(lv.take(i as int), lo as nat, hi as nat),
                any == (selected@.len() > 0),
            decreases self.lines.len() - i,
        {
            assert(lv.take(i + 1).drop_last() =~= lv.take(i as int));
            assert(lv.take(i + 1).last() == (self.lines@[i as int].number, self.lines@[i as int].text@));
            let line = &self.lines[i];
            if line.number >= lo && line.number <= hi {
                selected.append(line.text.as_str());
                push_char(&mut selected, '\n');
                any = true;
            }
            i += 1;
        }
        assert(lv.take(i as int) =~= lv);
        if !any {
            return Err(String::from_str("copy-mode line range is empty"));
        }
        Ok(selected)
    }

    /// What copy mode draws.
    pub fn render(&self) -> (r: String)
        requires
            copy_wf(self@),
        ensures
            r@ == render_spec(self@),
    {
        let mut output = String::from_str("\x1b[2J\x1b[H-- copy mode --\r\n");
        let visible = self.visible_line_count();
        let end = if self.viewport < self.lines.len() && visible < self.lines.len() - self.viewport {
            self.viewport + visible
        } else {
            self.lines.len()
        };
        let ghost s = self@;
        let ghost head = output@;
        assert(end == (if s.viewport + visible_count(s.height) < s.lines.len() {
            s.viewport + visible_count(s.height)
        } else {
            s.lines.len() as nat
        }));
        let mut index = self.viewport;
        while index < end
            invariant
                s == self@,
                copy_wf(s),
                self.viewport <= index <= end <= self.lines@.len(),
                output@ == head + shown_rows(s, (index - self.viewport) as nat),
            decreases end - index,
        {
            let line = &self.lines[index];
            let mark = if index == self.cursor {
                '>'
            } else if match self.selection_anchor {
                Some(a) => {
                    let (lo, hi) = if a <= self.cursor {
                        (a, self.cursor)
                    } else {
                        (self.cursor, a)
                    };
                    lo <= index && index <= hi
                },
                None => false,
            } {
                '*'
            } else {
                ' '
            };
            assert(mark == row_mark(s, index as nat));
            push_char(&mut output, mark);
            push_char(&mut output, ' ');
            let n = usize_string(line.number);
            output.append(n.as_str());
            push_char(&mut output, '\t');
            output.append(line.text.as_str());
            output.append("\r\n");
            proof {
                reveal_strlit("\r\n");
                assert(lines_view(self.lines@)[index as int] == (line.number, line.text@));
                assert(output@ =~= head + shown_rows(s, (index + 1 - self.viewport) as nat));
            }
            index += 1;
        }
        proof {
            reveal_strlit("\x1b[2J\x1b[H-- copy mode --\r\n");
        }
        output
    }
}

fn crlf_chars(v: &[char]) -> (r: Vec<char>)
    ensures
        r@ == crlf_to_lf(v@),
{
    let mut out: Vec<char> = Vec::new();
    let mut i: usize = 0;
    assert(v@.skip(0) =~= v@);
    assert(Seq::<char>::empty() + crlf_to_lf(v@) =~= crlf_to_lf(v@));
    while i < v.len()
        invariant
            i <= v@.len(),
            out@ + crlf_to_lf(v@.skip(i as int)) == crlf_to_lf(v@),
        decreases v.len() - i,
    {
        let ghost before = out@;
        if i + 1 < v.len() && v[i] == '\r' && v[i + 1] == '\n' {
            out.push('\n');
            assert(v@.skip(i as int).skip(2) =~= v@.skip(i + 2));
            assert(before.push('\n') + crlf_to_lf(v@.skip(i + 2)) =~= before + (seq!['\n']
                + crlf_to_lf(v@.skip(i as int).skip(2))));
            i += 2;
        } else {
            out.push(v[i]);
            assert(v@.skip(i as int).drop_first() =~= v@.skip(i + 1));
            assert(before.push(v@[i as int]) + crlf_to_lf(v@.skip(i + 1)) =~= before + (seq![
                v@[i as int],
            ] + crlf_to_lf(v@.skip(i as int).drop_first())));
            i += 1;
        }
    }
    assert(out@ + Seq::<char>::empty() =~= out@);
    out
}

/// Once a prefix of the lines fails, all of them fail.
proof fn lemma_numbered_err(lines: Seq<Seq<char>>, k: int)
    requires
        0 <= k <= lines.len(),
        numbered_lines_spec(lines.take(k)) is Err,
    ensures
        numbered_lines_spec(lines) == numbered_lines_spec(lines.take(k)),
    decreases lines.len() - k,
{
    if k < lines.len() {
        assert(lines.take(k + 1).drop_last() =~= lines.take(k));
        lemma_numbered_err(lines, k + 1);
    } else {
        assert(lines.take(k) =~= lines);
    }
}

/// How long a lone escape waits for the rest of a key sequence before it
/// leaves copy mode.
pub const COPY_MODE_ESCAPE_DISAMBIGUATION_MS: u64 = 30;

/// Copy-mode input that waits for the rest of a sequence, and since when.
#[derive(Debug)]
pub struct CopyModeInputState {
    pub pending: Vec<u8>,
    pub pending_since: Option<u64>,
}

impl Default for CopyModeInputState {
    fn default() -> (r: Self)
        ensures
            r.pending@ == Seq::<u8>::empty(),
            r.pending_since is None,
    {
        CopyModeInputState { pending: Vec::new(), pending_since: None }
    }
}

/// One step of copy-mode input at an offset: a mouse report, an arrow,
/// Home, End or page key, acted on by the view; a sequence not yet
/// complete waits; another control sequence is ignored; a lone escape
/// leaves; any other byte is a key. `None` when input waits.
pub open spec fn copy_step(bytes: Seq<u8>, offset: int, s: CopyModeState) -> Option<
    (int, CopyModeAction, CopyModeState),
> {
    let rest = bytes.skip(offset);
    if rest[0] == 27u8 {
        if sgr_event_spec(rest) is Some {
            let (ev, n) = sgr_event_spec(rest).unwrap();
            let (a, t) = mouse_spec(s, ev);
            Some((offset + n, a, t))
        } else if copy_mode_csi_spec(rest) is Some {
            let (key, n) = copy_mode_csi_spec(rest).unwrap();
            let (a, t) = key_spec(s, key);
            Some((offset + n, a, t))
        } else if rest =~= seq![27u8] || incomplete_csi_spec(rest) || incomplete_sgr_spec(rest) {
            None
        } else if csi_len_spec(rest) is Some {
            Some((offset + csi_len_spec(rest).unwrap(), CopyModeAction::Ignore, s))
        } else {
            Some((offset + 1, CopyModeAction::Exit, s))
        }
    } else {
        let (a, t) = key_spec(s, rest[0]);
        Some((offset + 1, a, t))
    }
}

/// Copy-mode input from an offset on: the actions, the view after them,
/// and the bytes left waiting.
pub open spec fn copy_run(bytes: Seq<u8>, offset: int, actions: Seq<CopyModeAction>, s: CopyModeState) -> (
    Seq<CopyModeAction>,
    CopyModeState,
    Seq<u8>,
)
    decreases bytes.len() - offset,
{
    if offset < 0 || offset >= bytes.len() {
        (actions, s, Seq::empty())
    } else {
        match copy_step(bytes, offset, s) {
            None => (actions, s, bytes.skip(offset)),
            Some((next, a, t)) => if offset < next <= bytes.len() {
                copy_run(bytes, next, actions.push(a), t)
            } else {
                (actions.push(a), t, Seq::empty())
            },
        }
    }
}

impl CopyModeInputState {
    /// Applies a piece of input to the view: bytes that waited go first;
    /// bytes of a sequence not yet complete wait, stamped with `now`.
    pub fn apply(&mut self, view: &mut CopyModeView, input: &[u8], now: u64) -> (r: Vec<CopyModeAction>)
        requires
            copy_wf(old(view)@),
        ensures
            copy_wf(final(view)@),
            ({
                let (a, t, left) = copy_run(old(self).pending@ + input@, 0, Seq::empty(), old(view)@);
                &&& r@ == a
                &&& final(view)@ == t
                &&& final(self).pending@ == left
                &&& final(self).pending_since == (if left.len() > 0 {
                    Some(now)
                } else if old(self).pending@.len() > 0 {
                    None::<u64>
                } else {
                    old(self).pending_since
                })
            }),
    {
        let mut bytes: Vec<u8> = Vec::new();
        let had_pending = self.pending.len() > 0;
        let mut k: usize = 0;
        while k < self.pending.len()
            invariant
                k <= self.pending@.len(),
                bytes@ == self.pending@.take(k as int),
            decreases self.pending.len() - k,
        {
            bytes.push(self.pending[k]);
            assert(self.pending@.take(k + 1) =~= self.pending@.take(k as int).push(self.pending@[k as int]));
            k += 1;
        }
        assert(self.pending@.take(k as int) =~= self.pending@);
        if had_pending {
            self.pending = Vec::new();
            self.pending_since = None;
        }
        let ghost start_len = bytes@.len();
        let mut j: usize = 0;
        while j < input.len()
            invariant
                j <= input@.len(),
                bytes@ == old(self).pending@ + input@.take(j as int),
            decreases input.len() - j,
        {
            bytes.push(input[j]);
            assert(input@.take(j + 1) =~= input@.take(j as int).push(input@[j as int]));
            j += 1;
        }
        assert(input@.take(j as int) =~= input@);
        let ghost v0 = view@;
        let mut actions: Vec<CopyModeAction> = Vec::new();
        let mut offset: usize = 0;
        while offset < bytes.len()
            invariant
                offset <= bytes@.len(),
                bytes@ == old(self).pending@ + input@,
                v0 == old(view)@,
                copy_wf(view@),
                self.pending@ == Seq::<u8>::empty(),
                self.pending_since == (if old(self).pending@.len() > 0 {
                    None::<u64>
                } else {
                    old(self).pending_since
                }),
                copy_run(bytes@, offset as int, actions@, view@) == copy_run(
                    bytes@,
                    0,
                    Seq::empty(),
                    v0,
                ),
            decreases bytes.len() - offset,
        {
            let len = bytes.len();
            let rest = vstd::slice::slice_subrange(bytes.as_slice(), offset, len);
            assert(rest@ =~= bytes@.skip(offset as int));
            if bytes[offset] == 27u8 {
                if let Some((ev, n)) = parse_sgr_mouse_event(rest) {
                    proof {
                        crate::keys::lemma_first_mouse_end_range(rest@, 3);
                    }
                    let a = view.apply_mouse_event(ev);
                    actions.push(a);
                    offset = offset + n;
                } else if let Some((key, n)) = parse_copy_mode_csi_key(rest) {
                    let a = view.apply_key(key);
                    actions.push(a);
                    offset = offset + n;
                } else if is_incomplete_copy_mode_csi_key(rest) || is_incomplete_sgr_mouse_event(rest) {
                    let mut left: Vec<u8> = Vec::new();
                    let mut q: usize = 0;
                    while q < rest.len()
                        invariant
                            q <= rest@.len(),
                            left@ == rest@.take(q as int),
                        decreases rest.len() - q,
                    {
                        left.push(rest[q]);
                        assert(rest@.take(q + 1) =~= rest@.take(q as int).push(rest@[q as int]));
                        q += 1;
                    }
                    assert(rest@.take(q as int) =~= rest@);
                    assert(copy_step(bytes@, offset as int, view@) is None);
                    assert(copy_run(bytes@, offset as int, actions@, view@) == (
                        actions@,
                        view@,
                        bytes@.skip(offset as int),
                    ));
                    assert(rest@.len() > 0);
                    self.pending = left;
                    self.pending_since = Some(now);
                    return actions;
                } else if let Some(n) = complete_csi_sequence_len(rest) {
                    actions.push(CopyModeAction::Ignore);
                    offset = offset + n;
                } else {
                    actions.push(CopyModeAction::Exit);
                    offset = offset + 1;
                }
            } else {
                let a = view.apply_key(bytes[offset]);
                actions.push(a);
                offset = offset + 1;
            }
        }
        actions
    }

    /// Leaves copy mode when a lone escape has waited long enough.
    pub fn pending_timeout_action(&mut self, now: u64) -> (r: Option<CopyModeAction>)
        ensures
            ({
                let timed_out = old(self).pending@ =~= seq![27u8] && match old(self).pending_since {
                    Some(since) => now >= since && now - since >= COPY_MODE_ESCAPE_DISAMBIGUATION_MS,
                    None => false,
                };
                if timed_out {
                    r == Some(CopyModeAction::Exit) && final(self).pending@ == Seq::<u8>::empty()
                        && final(self).pending_since is None
                } else {
                    r is None && final(self).pending@ == old(self).pending@ && final(self).pending_since
                        == old(self).pending_since
                }
            }),
    {
        let waited = match self.pending_since {
            Some(since) => now >= since && now - since >= COPY_MODE_ESCAPE_DISAMBIGUATION_MS,
            None => false,
        };
        if self.pending.len() == 1 && self.pending[0] == 27u8 && waited {
            self.pending = Vec::new();
            self.pending_since = None;
            return Some(CopyModeAction::Exit);
        }
        proof {
            if self.pending@ =~= seq![27u8] {
                assert(self.pending@.len() == 1 && self.pending@[0] == 27u8);
            }
        }
        None
    }
}

/// Whether an error says the server did not know the request.
pub fn is_unknown_request_error(error: &str) -> (r: bool)
    ensures
        r == crate::text::is_prefix("unknown request line:"@, error@),
{
    let v = chars_of(error);
    crate::text::starts_with_str(v.as_slice(), "unknown request line:")
}

/// The error a failed copy-mode save gives: a server that does not know
/// the request needs updating.
pub fn map_copy_mode_save_text_error(error: String) -> (r: String)
    ensures
        crate::text::is_prefix("unknown request line:"@, error@) ==> r@
            == "copy-mode text save requires an updated dmux server"@,
        !crate::text::is_prefix("unknown request line:"@, error@) ==> r@ == error@,
{
    if is_unknown_request_error(error.as_str()) {
        String::from_str("copy-mode text save requires an updated dmux server")
    } else {
        error
    }
}

/// The request that saves the lines between two numbers of a view to a
/// new buffer of a session; an error when no line falls between them.
pub fn encode_copy_mode_save_request(session: &str, view: &CopyModeView, start: usize, end: usize) -> (r: Result<String, String>)
    ensures
        ({
            let (lo, hi) = ordered(start as nat, end as nat);
            let t = selected_spec(view@.lines, lo, hi);
            if t.len() > 0 {
                r matches Ok(s) && s@ == crate::wire::line_of(
                    seq![
                        "SAVE_BUFFER_TEXT"@,
                        session@,
                        crate::wire::opt_text(None),
                        crate::wire::hex_text(t),
                    ],
                )
            } else {
                r matches Err(m) && m@ == "copy-mode line range is empty"@
            }
        }),
{
    let text = view.selected_text_for_line_range(start, end)?;
    Ok(crate::encode::encode_save_buffer_text(session, None, text.as_str()))
}


/// `j` (or Ctrl-N) moves the cursor one line down and `k` (or Ctrl-P) one
/// line up, each asking for a redraw, and each does nothing at the last or
/// first line; the lines, the selection anchor and the height stay as
/// they were.
pub proof fn law_copy_mode_line_moves(s: CopyModeState, byte: u8)
    requires
        copy_wf(s),
        byte == 106u8 || byte == 0x0eu8 || byte == 107u8 || byte == 0x10u8,
    ensures
        ({
            let (action, t) = key_spec(s, byte);
            let down = byte == 106u8 || byte == 0x0eu8;
            let moves = if down {
                s.cursor + 1 < s.lines.len()
            } else {
                s.cursor > 0
            };
            &&& t.cursor == (if !moves {
                s.cursor
            } else if down {
                s.cursor + 1
            } else {
                (s.cursor - 1) as nat
            })
            &&& action == (if moves {
                CopyModeAction::Redraw
            } else {
                CopyModeAction::Ignore
            })
            &&& t.lines == s.lines
            &&& t.anchor == s.anchor
            &&& t.height == s.height
        }),
{
}

} // verus!
