//! The bytes of a whole live frame: header lines (status and message, cut
//! to the terminal), the snapshot's rows below them, and the help overlay.

use vstd::prelude::*;
use vstd::string::*;
use crate::encode::opt_str_view;
use crate::frames::PtySize;
use crate::header::{
    append_centered_popup_overlay, cap_live_header_lines, cap_spec, content_lines_spec,
    header_lines_spec, live_header_lines, overlay_spec, popup_content_lines, strings_view,
};
use crate::render::{cursor_home, output_rows, split_bytes, split_render_output_rows};
use crate::text::{chars_of, text_lines, utf8_bytes};

verus! {

/// `ESC [ 2 J ESC [ H`: clear the screen and home the cursor.
pub open spec fn clear_screen() -> Seq<u8> {
    seq![27u8, 91u8, 50u8, 74u8, 27u8, 91u8, 72u8]
}

/// `ESC [ 2 K`: clear the line.
pub open spec fn clear_line() -> Seq<u8> {
    seq![27u8, 91u8, 50u8, 75u8]
}

/// `\r\n`.
pub open spec fn crlf() -> Seq<u8> {
    seq![13u8, 10u8]
}

/// The rows of a snapshot: its lines with a carriage return before each
/// newline dropped, and no row after a final newline.
pub open spec fn snapshot_rows(s: Seq<u8>) -> Seq<Seq<u8>> {
    if split_bytes(s, 10u8).last().len() == 0 {
        output_rows(s).drop_last()
    } else {
        output_rows(s)
    }
}

/// Rows separated by `\r\n`, each after a line clear when `clear` holds.
pub open spec fn rows_bytes(rows: Seq<Seq<u8>>, clear: bool) -> Seq<u8>
    decreases rows.len(),
{
    if rows.len() == 0 {
        seq![]
    } else {
        let sep = if rows.len() > 1 {
            crlf()
        } else {
            seq![]
        };
        let head = if clear {
            clear_line()
        } else {
            seq![]
        };
        rows_bytes(rows.drop_last(), clear) + sep + head + rows.last()
    }
}

/// Header lines, each ended by `\r\n` and after a line clear when `clear`
/// holds.
pub open spec fn header_bytes(lines: Seq<Seq<char>>, clear: bool) -> Seq<u8>
    decreases lines.len(),
{
    if lines.len() == 0 {
        seq![]
    } else {
        let head = if clear {
            clear_line()
        } else {
            seq![]
        };
        header_bytes(lines.drop_last(), clear) + head + vstd::utf8::encode_utf8(lines.last()) + crlf()
    }
}

/// The size a frame is laid out for: the terminal's, else the default
/// size when an overlay must be placed, else none.
pub open spec fn frame_size(detected: Option<PtySize>, overlay: Option<Seq<char>>) -> Option<PtySize> {
    match detected {
        Some(s) => Some(s),
        None => match overlay {
            Some(_) => Some(PtySize { cols: 80, rows: 24 }),
            None => None,
        },
    }
}

/// The header lines of a frame.
pub open spec fn frame_header(
    status: Seq<char>,
    message: Option<Seq<char>>,
    size: Option<PtySize>,
    prioritize_message: bool,
) -> Seq<Seq<char>> {
    let width = match size {
        Some(s) => Some(s.cols as usize),
        None => None,
    };
    let max_rows = match size {
        Some(s) => Some(if s.rows > 1 { (s.rows - 1) as usize } else { s.rows as usize }),
        None => None,
    };
    cap_spec(header_lines_spec(status, message, width), max_rows, width, prioritize_message && message is Some)
}

/// The bytes of a whole frame and the rows its header takes.
pub open spec fn frame_spec(
    status: Seq<char>,
    message: Option<Seq<char>>,
    overlay: Option<Seq<char>>,
    snapshot: Seq<u8>,
    detected: Option<PtySize>,
    clear: bool,
    prioritize_message: bool,
) -> (Seq<u8>, nat) {
    let size = frame_size(detected, overlay);
    let header = frame_header(status, message, size, prioritize_message);
    let h = header.len();
    let rows = snapshot_rows(snapshot);
    let shown = match size {
        Some(s) => if s.rows as nat >= h {
            rows.take(if (s.rows - h) as nat <= rows.len() { (s.rows - h) as int } else { rows.len() as int })
        } else {
            rows.take(0)
        },
        None => rows,
    };
    let start = if clear {
        clear_screen()
    } else {
        cursor_home()
    };
    let over = match (overlay, size) {
        (Some(o), Some(s)) => overlay_spec("dmux help"@, content_lines_spec(text_lines(o)), s, h as usize),
        _ => seq![],
    };
    (start + header_bytes(header, !clear) + rows_bytes(shown, !clear) + over, h)
}

/// The last piece of a split is empty exactly when the bytes are empty or
/// end with the separator.
proof fn lemma_split_bytes_last(s: Seq<u8>, sep: u8)
    ensures
        split_bytes(s, sep).len() >= 1,
        (split_bytes(s, sep).last().len() == 0) == (s.len() == 0 || s.last() == sep),
    decreases s.len(),
{
    crate::render::lemma_split_bytes_nonempty(s, sep);
    if s.len() > 0 {
        lemma_split_bytes_last(s.drop_last(), sep);
    }
}

/// Appends `b` to `out`.
fn append(out: &mut Vec<u8>, b: &[u8])
    ensures
        final(out)@ == old(out)@ + b@,
{
    let mut i: usize = 0;
    while i < b.len()
        invariant
            i <= b.len(),
            out@ == old(out)@ + b@.take(i as int),
        decreases b.len() - i,
    {
        out.push(b[i]);
        i += 1;
        assert(b@.take(i as int) == b@.take(i - 1).push(b@[i - 1]));
    }
    assert(b@.take(b.len() as int) =~= b@);
}

fn clear_line_bytes() -> (r: Vec<u8>)
    ensures
        r@ == clear_line(),
{
    let r = vec![27u8, 91u8, 50u8, 75u8];
    assert(r@ =~= clear_line());
    r
}

/// The snapshot's rows, at most `max_rows` of them.
fn write_rows(out: &mut Vec<u8>, snapshot: &[u8], max_rows: usize, clear: bool)
    ensures
        snapshot_rows(snapshot@).len() <= usize::MAX,
        final(out)@ == old(out)@ + rows_bytes(
            snapshot_rows(snapshot@).take(
                if max_rows as nat <= snapshot_rows(snapshot@).len() {
                    max_rows as int
                } else {
                    snapshot_rows(snapshot@).len() as int
                },
            ),
            clear,
        ),
{
    let parts = split_render_output_rows(snapshot);
    let ghost all = output_rows(snapshot@);
    let ghost rows = snapshot_rows(snapshot@);
    proof {
        crate::render::lemma_split_bytes_nonempty(snapshot@, 10u8);
    }
    let last_empty = snapshot.len() == 0 || snapshot[snapshot.len() - 1] == 10u8;
    proof {
        lemma_split_bytes_last(snapshot@, 10u8);
    }
    let count = if last_empty {
        parts.len() - 1
    } else {
        parts.len()
    };
    assert(count == rows.len());
    let n = if max_rows < count {
        max_rows
    } else {
        count
    };
    let cl = clear_line_bytes();
    let mut k: usize = 0;
    while k < n
        invariant
            k <= n <= count <= parts@.len(),
            count == rows.len(),
            parts@.len() == all.len(),
            forall|i: int| 0 <= i < parts@.len() ==> (#[trigger] parts@[i])@ == all[i],
            forall|i: int| 0 <= i < rows.len() ==> rows[i] == all[i],
            cl@ == clear_line(),
            out@ == old(out)@ + rows_bytes(rows.take(k as int), clear),
        decreases n - k,
    {
        let ghost before = out@;
        if k > 0 {
            let nl = [13u8, 10u8];
            assert(nl@ =~= crlf());
            append(out, &nl);
        }
        if clear {
            append(out, cl.as_slice());
        }
        append(out, parts[k].as_slice());
        proof {
            assert(rows.take(k + 1).drop_last() =~= rows.take(k as int));
            assert(rows.take(k + 1).last() == all[k as int]);
        }
        k += 1;
    }
}

/// The header lines, each ended by `\r\n`.
fn write_header(out: &mut Vec<u8>, lines: &Vec<String>, clear: bool)
    ensures
        final(out)@ == old(out)@ + header_bytes(strings_view(lines@), clear),
{
    let ghost lv = strings_view(lines@);
    let cl = clear_line_bytes();
    let mut k: usize = 0;
    while k < lines.len()
        invariant
            k <= lines@.len(),
            lv == strings_view(lines@),
            cl@ == clear_line(),
            out@ == old(out)@ + header_bytes(lv.take(k as int), clear),
        decreases lines.len() - k,
    {
        if clear {
            append(out, cl.as_slice());
        }
        let chars = chars_of(lines[k].as_str());
        let bytes = utf8_bytes(chars.as_slice());
        append(out, bytes.as_slice());
        let nl = [13u8, 10u8];
        assert(nl@ =~= crlf());
        append(out, &nl);
        proof {
            assert(lv.take(k + 1).drop_last() =~= lv.take(k as int));
            assert(lv.take(k + 1).last() == lines@[k as int]@);
            assert(seq![13u8, 10u8] =~= crlf());
        }
        k += 1;
    }
    assert(lv.take(lines.len() as int) =~= lv);
}

/// The bytes of a whole frame, with the number of rows its header takes:
/// the screen cleared (or the cursor homed when repainting), the status and
/// message lines cut to the terminal's width and height, the snapshot's
/// rows below them, and the help overlay when one is given.
pub fn compose_live_frame(
    status: &str,
    message: Option<&str>,
    overlay: Option<&str>,
    snapshot: &[u8],
    detected: Option<PtySize>,
    clear: bool,
    prioritize_message: bool,
) -> (r: (Vec<u8>, usize))
    ensures
        r.0@ == frame_spec(status@, opt_str_view(message), opt_str_view(overlay), snapshot@, detected, clear, prioritize_message).0,
        r.1 as nat == frame_spec(status@, opt_str_view(message), opt_str_view(overlay), snapshot@, detected, clear, prioritize_message).1,
{
    let size = match detected {
        Some(s) => Some(s),
        None => match overlay {
            Some(_) => Some(PtySize { cols: 80, rows: 24 }),
            None => None,
        },
    };
    let width = match size {
        Some(s) => Some(s.cols as usize),
        None => None,
    };
    let max_rows = match size {
        Some(s) => Some(if s.rows > 1 { (s.rows - 1) as usize } else { s.rows as usize }),
        None => None,
    };
    let ghost spec_size = frame_size(detected, opt_str_view(overlay));
    assert(size == spec_size);
    let has_message = message.is_some();
    let lines = live_header_lines(status, message, width);
    assert(strings_view(lines@) =~= header_lines_spec(status@, opt_str_view(message), width));
    let header = cap_live_header_lines(lines, max_rows, width, prioritize_message && has_message);
    let ghost hv = frame_header(status@, opt_str_view(message), size, prioritize_message);
    assert(strings_view(header@) == hv);
    let h = header.len();
    let mut out: Vec<u8> = Vec::new();
    if clear {
        let start = [27u8, 91u8, 50u8, 74u8, 27u8, 91u8, 72u8];
        assert(start@ =~= clear_screen());
        append(&mut out, &start);
    } else {
        let start = [27u8, 91u8, 72u8];
        assert(start@ =~= cursor_home());
        append(&mut out, &start);
    }
    write_header(&mut out, &header, !clear);
    let snapshot_rows_max = match size {
        Some(s) => if (s.rows as usize) >= h {
            s.rows as usize - h
        } else {
            0
        },
        None => usize::MAX,
    };
    write_rows(&mut out, snapshot, snapshot_rows_max, !clear);
    proof {
        let rows = snapshot_rows(snapshot@);
        assert(rows.take(rows.len() as int) =~= rows);
    }
    match (overlay, size) {
        (Some(o), Some(s)) => {
            let content = popup_content_lines(o);
            append_centered_popup_overlay(&mut out, "dmux help", content.as_slice(), s, h);
        },
        _ => {},
    }
    (out, h)
}

} // verus!
