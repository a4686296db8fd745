//! What one call undoes of another: every request line that an encoder
//! writes decodes back to the request it describes.

use vstd::prelude::*;
use vstd::string::*;
use vstd::utf8::encode_utf8;
use crate::text::{
    decimal, find_char, hex, hex_char, is_digit, join, lemma_decimal_digits, lemma_hex_roundtrip,
    lemma_parse_decimal, lemma_parse_signed_decimal, lemma_split_join, signed_decimal, split,
};
use crate::encode::{rename_window_line, save_buffer_target_line};
use crate::decode::{
    dec_capture_mode, dec_command, dec_force, dec_hex, dec_line_offset, dec_optional_client_id,
    dec_optional_index, dec_optional_positive_index, dec_optional_text, dec_pane_direction,
    dec_positive_index, dec_resize_direction, dec_split_direction, dec_structured_pane_target,
    dec_structured_window_target, dec_target, dec_u16_or, dec_usize, dec_usize_or, dec_utf8_hex,
    dec_window_target, decode_request_spec, layout_preset_named, trim_newlines,
    decode_group_0_spec,
    decode_group_1_spec,
    decode_group_2_spec,
    decode_group_3_spec,
    decode_group_4_spec,
    decode_group_5_spec,
    decode_group_6_spec,
    decode_group_7_spec,
    decode_group_8_spec,
    decode_group_9_spec,
    decode_group_10_spec,
    decode_group_11_spec,
    decode_group_12_spec,
    decode_group_13_spec,
    decode_group_14_spec,
    decode_group_15_spec,
    decode_group_16_spec,
    decode_group_17_spec,
    decode_group_18_spec,
    decode_group_19_spec,
    decode_group_20_spec,
    decode_group_21_spec,
    decode_group_22_spec,
    decode_group_23_spec,
    lemma_groups_none,
};
use crate::wire::{
    capture_mode_text, command_text, hex_text, layout_preset_text, line_of, opt_number, opt_text,
    pane_direction_text, pane_target_text, resize_direction_text, split_direction_text,
    target_text, window_target_text,
};
use crate::protocol::{active_target, BufferSelectionView, PaneSelectTarget, MAX_SAVE_BUFFER_TEXT_BYTES};
use crate::protocol::{
    CaptureMode, LayoutPreset, PaneDirection, PaneResizeDirection, PaneTarget, RequestView,
    SplitDirection, TargetView, WindowTargetView, ARG_SEPARATOR,
};

verus! {

/// A field that can stand in a request line as it is.
pub open spec fn plain_field(s: Seq<char>) -> bool {
    !s.contains('\t') && !s.contains('\n')
}

/// Splitting a request line without its newline gives its fields back.
pub proof fn lemma_line_fields(fields: Seq<Seq<char>>)
    requires
        fields.len() >= 1,
        forall|i: int| 0 <= i < fields.len() ==> plain_field(#[trigger] fields[i]),
    ensures
        split(trim_newlines(line_of(fields)), '\t') == fields,
{
    assert forall|i: int| 0 <= i < fields.len() implies !(#[trigger] fields[i]).contains('\t') by {
        assert(plain_field(fields[i]));
    }
    lemma_split_join(fields, '\t');
    lemma_join_no_newline(fields);
    let j = join(fields, '\t');
    assert(line_of(fields).drop_last() == j);
    assert(trim_newlines(line_of(fields)) == trim_newlines(j));
    if j.len() > 0 {
        assert(j.last() != '\n') by {
            assert(j[j.len() - 1] == j.last());
        }
    }
    assert(trim_newlines(j) == j);
}

proof fn lemma_join_no_newline(fields: Seq<Seq<char>>)
    requires
        fields.len() >= 1,
        forall|i: int| 0 <= i < fields.len() ==> plain_field(#[trigger] fields[i]),
    ensures
        !join(fields, '\t').contains('\n'),
    decreases fields.len(),
{
    if fields.len() > 1 {
        let init = fields.drop_last();
        assert forall|i: int| 0 <= i < init.len() implies plain_field(#[trigger] init[i]) by {
            assert(init[i] == fields[i]);
        }
        lemma_join_no_newline(init);
        let a = join(init, '\t').push('\t');
        let b = fields.last();
        assert(plain_field(fields[fields.len() - 1]));
        assert(!(a + b).contains('\n')) by {
            if (a + b).contains('\n') {
                let k = choose|k: int| 0 <= k < (a + b).len() && (a + b)[k] == '\n';
                if k < a.len() {
                    if k < a.len() - 1 {
                        assert(join(init, '\t')[k] == '\n');
                    }
                } else {
                    assert(b[k - a.len()] == '\n');
                }
            }
        }
    } else {
        assert(plain_field(fields[0]));
    }
}

/// A character of a word: ASCII letter, digit, `_` or `-`.
pub open spec fn word_char(c: char) -> bool {
    ('a' <= c && c <= 'z') || ('A' <= c && c <= 'Z') || ('0' <= c && c <= '9') || c == '_' || c
        == '-'
}

/// Text made of word characters only.
pub open spec fn tame(s: Seq<char>) -> bool {
    forall|i: int| 0 <= i < s.len() ==> word_char(#[trigger] s[i])
}

pub proof fn lemma_tame_plain(s: Seq<char>)
    requires
        tame(s),
    ensures
        plain_field(s),
        !s.contains('|'),
        !s.contains(':'),
        !s.contains(ARG_SEPARATOR),
{
    if s.contains('\t') || s.contains('\n') || s.contains('|') || s.contains(':') || s.contains(
        ARG_SEPARATOR,
    ) {
        let c = if s.contains('\t') {
            '\t'
        } else if s.contains('\n') {
            '\n'
        } else if s.contains('|') {
            '|'
        } else if s.contains(':') {
            ':'
        } else {
            ARG_SEPARATOR
        };
        let k = choose|k: int| 0 <= k < s.len() && s[k] == c;
        assert(word_char(s[k]));
    }
}

pub proof fn lemma_tame_concat(a: Seq<char>, b: Seq<char>)
    requires
        tame(a),
        tame(b),
    ensures
        tame(a + b),
{
    assert forall|i: int| 0 <= i < (a + b).len() implies word_char(#[trigger] (a + b)[i]) by {
        if i < a.len() {
            assert((a + b)[i] == a[i]);
        } else {
            assert((a + b)[i] == b[i - a.len()]);
        }
    }
}

pub proof fn lemma_tame_hex(b: Seq<u8>)
    ensures
        tame(hex(b)),
    decreases b.len(),
{
    if b.len() > 0 {
        lemma_tame_hex(b.drop_last());
        let t = seq![hex_char((b.last() / 16) as nat), hex_char((b.last() % 16) as nat)];
        assert(tame(t));
        lemma_tame_concat(hex(b.drop_last()), t);
    }
}

pub proof fn lemma_tame_decimal(n: nat)
    ensures
        tame(decimal(n)),
{
    lemma_decimal_digits(n);
}

pub proof fn lemma_tame_signed(n: int)
    ensures
        tame(signed_decimal(n)),
{
    if n < 0 {
        lemma_tame_decimal((-n) as nat);
        lemma_tame_concat(seq!['-'], decimal((-n) as nat));
    } else {
        lemma_tame_decimal(n as nat);
    }
}

/// Free text written as hexadecimal decodes back to itself.
pub proof fn lemma_hex_text_round(s: Seq<char>, command: Seq<char>)
    ensures
        dec_utf8_hex(hex_text(s), command) == Ok::<Seq<char>, Seq<char>>(s),
        tame(hex_text(s)),
{
    lemma_hex_roundtrip(encode_utf8(s));
    vstd::utf8::encode_utf8_valid_utf8(s);
    vstd::utf8::encode_utf8_decode_utf8(s);
    lemma_tame_hex(encode_utf8(s));
}

/// Optional text decodes back to itself unless it is present and empty.
pub proof fn lemma_opt_text_round(o: Option<Seq<char>>, command: Seq<char>)
    requires
        o != Some(Seq::<char>::empty()),
    ensures
        dec_optional_text(opt_text(o), command) == Ok::<Option<Seq<char>>, Seq<char>>(o),
        tame(opt_text(o)),
{
    match o {
        Some(s) => {
            lemma_hex_text_round(s, command);
            if s.len() > 0 {
                vstd::utf8::encode_utf8_first_scalar(s);
                assert(encode_utf8(s).len() > 0);
                lemma_hex_ascii_len(encode_utf8(s));
            }
        },
        None => {},
    }
}

proof fn lemma_hex_ascii_len(b: Seq<u8>)
    ensures
        hex(b).len() == 2 * b.len(),
    decreases b.len(),
{
    if b.len() > 0 {
        lemma_hex_ascii_len(b.drop_last());
    }
}

/// A number in decimal decodes back to itself.
pub proof fn lemma_decimal_round(n: usize)
    ensures
        dec_usize(decimal(n as nat)) == Some(n),
        tame(decimal(n as nat)),
        decimal(n as nat).len() > 0,
{
    lemma_parse_decimal(n as nat, usize::MAX as nat);
    lemma_tame_decimal(n as nat);
    lemma_decimal_digits(n as nat);
}


pub proof fn lemma_line_offset_round(n: isize, message: Seq<char>)
    requires
        n != 0,
    ensures
        dec_line_offset(signed_decimal(n as int), message) == Ok::<isize, Seq<char>>(n),
        tame(signed_decimal(n as int)),
{
    lemma_parse_signed_decimal(n);
    lemma_tame_signed(n as int);
}

pub proof fn lemma_positive_round(n: usize, message: Seq<char>)
    requires
        n > 0,
    ensures
        dec_positive_index(decimal(n as nat), message) == Ok::<usize, Seq<char>>(n),
        dec_optional_positive_index(decimal(n as nat), message) == Ok::<Option<usize>, Seq<char>>(
            Some(n),
        ),
{
    lemma_decimal_round(n);
}

pub proof fn lemma_usize_or_round(n: usize, message: Seq<char>)
    ensures
        dec_usize_or(decimal(n as nat), message) == Ok::<usize, Seq<char>>(n),
{
    lemma_decimal_round(n);
}

pub proof fn lemma_u16_round(n: u16, message: Seq<char>)
    ensures
        dec_u16_or(decimal(n as nat), message) == Ok::<u16, Seq<char>>(n),
        tame(decimal(n as nat)),
{
    lemma_parse_decimal(n as nat, u16::MAX as nat);
    lemma_tame_decimal(n as nat);
}

pub proof fn lemma_bytes_round(b: Seq<u8>)
    ensures
        dec_hex(hex(b)) == Ok::<Seq<u8>, Seq<char>>(b),
        tame(hex(b)),
{
    lemma_hex_roundtrip(b);
    lemma_tame_hex(b);
}

pub proof fn lemma_client_id_round(o: Option<usize>)
    ensures
        dec_optional_client_id(opt_number(o)) == Ok::<Option<usize>, Seq<char>>(o),
        tame(opt_number(o)),
{
    match o {
        Some(n) => {
            lemma_decimal_round(n);
        },
        None => {},
    }
}

pub proof fn lemma_mode_round(m: CaptureMode)
    ensures
        dec_capture_mode(capture_mode_text(m)) == Ok::<CaptureMode, Seq<char>>(m),
        tame(capture_mode_text(m)),
{
    reveal_strlit("screen");
    reveal_strlit("history");
    reveal_strlit("all");
    assert("screen"@.len() == 6);
    assert("history"@.len() == 7);
    assert("all"@.len() == 3);
}

pub proof fn lemma_split_direction_round(d: SplitDirection)
    ensures
        dec_split_direction(split_direction_text(d)) == Ok::<SplitDirection, Seq<char>>(d),
        tame(split_direction_text(d)),
{
    reveal_strlit("h");
    reveal_strlit("v");
    assert("h"@[0] == 'h' && "v"@[0] == 'v');
}

pub proof fn lemma_resize_direction_round(d: PaneResizeDirection)
    ensures
        dec_resize_direction(resize_direction_text(d)) == Ok::<PaneResizeDirection, Seq<char>>(d),
        tame(resize_direction_text(d)),
{
    reveal_strlit("L");
    reveal_strlit("R");
    reveal_strlit("U");
    reveal_strlit("D");
    assert("L"@[0] == 'L' && "R"@[0] == 'R' && "U"@[0] == 'U' && "D"@[0] == 'D');
}

pub proof fn lemma_pane_direction_round(d: PaneDirection, message: Seq<char>)
    ensures
        dec_pane_direction(pane_direction_text(d), message) == Ok::<PaneDirection, Seq<char>>(d),
        tame(pane_direction_text(d)),
{
    reveal_strlit("L");
    reveal_strlit("R");
    reveal_strlit("U");
    reveal_strlit("D");
    assert("L"@[0] == 'L' && "R"@[0] == 'R' && "U"@[0] == 'U' && "D"@[0] == 'D');
}

pub proof fn lemma_preset_round(p: LayoutPreset)
    ensures
        layout_preset_named(layout_preset_text(p)) == Ok::<LayoutPreset, Seq<char>>(p),
        tame(layout_preset_text(p)),
{
    reveal_strlit("even-horizontal");
    reveal_strlit("even-vertical");
    reveal_strlit("tiled");
    reveal_strlit("main-horizontal");
    reveal_strlit("main-vertical");
    assert("even-horizontal"@.len() == 15 && "even-horizontal"@[0] == 'e');
    assert("even-vertical"@.len() == 13 && "even-vertical"@[0] == 'e');
    assert("tiled"@.len() == 5 && "tiled"@[0] == 't');
    assert("main-horizontal"@.len() == 15 && "main-horizontal"@[0] == 'm');
    assert("main-vertical"@.len() == 13 && "main-vertical"@[0] == 'm');
}

pub proof fn lemma_force_round(force: bool, name: Seq<char>)
    ensures
        dec_force((if force { "1"@ } else { "0"@ }), name) == Ok::<bool, Seq<char>>(force),
        tame(if force { "1"@ } else { "0"@ }),
{
    reveal_strlit("1");
    reveal_strlit("0");
    assert("1"@[0] != "0"@[0]);
}

/// `prefix:rest` splits at its first colon when the prefix has none.
proof fn lemma_kind_split(prefix: Seq<char>, rest: Seq<char>)
    requires
        !prefix.contains(':'),
    ensures
        find_char(prefix + ":"@ + rest, ':') == Some(prefix.len() as int),
        (prefix + ":"@ + rest).take(prefix.len() as int) == prefix,
        (prefix + ":"@ + rest).skip(prefix.len() as int + 1) == rest,
{
    reveal_strlit(":");
    let v = prefix + ":"@ + rest;
    let i = prefix.len() as int;
    assert(v[i] == ':');
    assert forall|j: int| 0 <= j < i implies v[j] != ':' by {
        assert(v[j] == prefix[j]);
    }
    assert(v.contains(':'));
    let k = choose|k: int| 0 <= k < v.len() && v[k] == ':' && forall|j: int| 0 <= j < k ==> v[j] != ':';
    assert(k == i);
    assert(v.take(i) =~= prefix);
    assert(v.skip(i + 1) =~= rest);
}

/// Text that may stand in a target's part: no tab, newline or bar.
pub open spec fn part_ok(s: Seq<char>) -> bool {
    !s.contains('\t') && !s.contains('\n') && !s.contains('|')
}

proof fn lemma_part_ok_concat(a: Seq<char>, b: Seq<char>)
    requires
        part_ok(a),
        part_ok(b),
    ensures
        part_ok(a + b),
{
    vstd::seq_lib::lemma_seq_concat_contains_all_elements(a, b, '\t');
    vstd::seq_lib::lemma_seq_concat_contains_all_elements(a, b, '\n');
    vstd::seq_lib::lemma_seq_concat_contains_all_elements(a, b, '|');
}

proof fn lemma_tame_part_ok(s: Seq<char>)
    requires
        tame(s),
    ensures
        part_ok(s),
        !s.contains(':'),
{
    lemma_tame_plain(s);
}

/// `kind:rest` decodes by its kind when `kind` is a word.
proof fn lemma_kind_text(kind: &str, rest: Seq<char>)
    requires
        tame(kind@),
        tame(rest) || part_ok(rest),
    ensures
        find_char(kind@ + ":"@ + rest, ':') == Some(kind@.len() as int),
        (kind@ + ":"@ + rest).take(kind@.len() as int) == kind@,
        (kind@ + ":"@ + rest).skip(kind@.len() as int + 1) == rest,
        part_ok(kind@ + ":"@ + rest),
{
    reveal_strlit(":");
    lemma_tame_part_ok(kind@);
    lemma_kind_split(kind@, rest);
    if tame(rest) {
        lemma_tame_part_ok(rest);
    }
    assert(part_ok(":"@)) by {
        assert(":"@ =~= seq![':']);
    }
    lemma_part_ok_concat(kind@, ":"@);
    lemma_part_ok_concat(kind@ + ":"@, rest);
}

proof fn lemma_window_index_text(n: usize, command: Seq<char>)
    ensures
        dec_structured_window_target(window_target_text(WindowTargetView::Index(n)), command)
            == Ok::<WindowTargetView, Seq<char>>(WindowTargetView::Index(n)),
        part_ok(window_target_text(WindowTargetView::Index(n))),
{
    reveal_strlit("active");
    reveal_strlit("index");
    reveal_strlit("index:");
    reveal_strlit(":");
    assert("index:"@ =~= "index"@ + ":"@);
    lemma_decimal_round(n);
    lemma_kind_text("index", decimal(n as nat));
    assert(window_target_text(WindowTargetView::Index(n)) == "index"@ + ":"@ + decimal(n as nat));
}

proof fn lemma_window_id_text(n: usize, command: Seq<char>)
    ensures
        dec_structured_window_target(window_target_text(WindowTargetView::Id(n)), command)
            == Ok::<WindowTargetView, Seq<char>>(WindowTargetView::Id(n)),
        part_ok(window_target_text(WindowTargetView::Id(n))),
{
    reveal_strlit("active");
    reveal_strlit("index");
    reveal_strlit("id");
    reveal_strlit("id:");
    reveal_strlit(":");
    assert("id:"@ =~= "id"@ + ":"@);
    lemma_decimal_round(n);
    lemma_kind_text("id", decimal(n as nat));
    assert(window_target_text(WindowTargetView::Id(n)) == "id"@ + ":"@ + decimal(n as nat));
    assert(("id"@ + ":"@ + decimal(n as nat)).len() >= 4);
}

proof fn lemma_window_name_text(name: Seq<char>, command: Seq<char>)
    ensures
        dec_structured_window_target(window_target_text(WindowTargetView::Name(name)), command)
            == Ok::<WindowTargetView, Seq<char>>(WindowTargetView::Name(name)),
        part_ok(window_target_text(WindowTargetView::Name(name))),
{
    reveal_strlit("active");
    reveal_strlit("index");
    reveal_strlit("id");
    reveal_strlit("name");
    reveal_strlit("name:");
    reveal_strlit(":");
    assert("name:"@ =~= "name"@ + ":"@);
    lemma_hex_text_round(name, command);
    lemma_kind_text("name", hex_text(name));
    assert(window_target_text(WindowTargetView::Name(name)) == "name"@ + ":"@ + hex_text(name));
    assert(("name"@ + ":"@ + hex_text(name)).len() >= 5);
    assert(("name"@ + ":"@ + hex_text(name)) != "active"@) by {
        if hex_text(name).len() == 1 {
            assert(("name"@ + ":"@ + hex_text(name))[0] == 'n');
        }
    }
}

pub proof fn lemma_structured_window_round(w: WindowTargetView, command: Seq<char>)
    ensures
        dec_structured_window_target(window_target_text(w), command) == Ok::<
            WindowTargetView,
            Seq<char>,
        >(w),
        part_ok(window_target_text(w)),
{
    match w {
        WindowTargetView::Active => {
            reveal_strlit("active");
            assert(tame("active"@));
            lemma_tame_part_ok("active"@);
        },
        WindowTargetView::Index(n) => lemma_window_index_text(n, command),
        WindowTargetView::Id(n) => lemma_window_id_text(n, command),
        WindowTargetView::Name(name) => lemma_window_name_text(name, command),
    }
}

proof fn lemma_pane_index_text(n: usize, command: Seq<char>)
    ensures
        dec_structured_pane_target(pane_target_text(PaneTarget::Index(n)), command) == Ok::<
            PaneTarget,
            Seq<char>,
        >(PaneTarget::Index(n)),
        part_ok(pane_target_text(PaneTarget::Index(n))),
{
    reveal_strlit("active");
    reveal_strlit("index");
    reveal_strlit("index:");
    reveal_strlit(":");
    assert("index:"@ =~= "index"@ + ":"@);
    lemma_decimal_round(n);
    lemma_kind_text("index", decimal(n as nat));
    assert(pane_target_text(PaneTarget::Index(n)) == "index"@ + ":"@ + decimal(n as nat));
}

proof fn lemma_pane_id_text(n: usize, command: Seq<char>)
    ensures
        dec_structured_pane_target(pane_target_text(PaneTarget::Id(n)), command) == Ok::<
            PaneTarget,
            Seq<char>,
        >(PaneTarget::Id(n)),
        part_ok(pane_target_text(PaneTarget::Id(n))),
{
    reveal_strlit("active");
    reveal_strlit("index");
    reveal_strlit("id");
    reveal_strlit("id:");
    reveal_strlit(":");
    assert("id:"@ =~= "id"@ + ":"@);
    lemma_decimal_round(n);
    lemma_kind_text("id", decimal(n as nat));
    assert(pane_target_text(PaneTarget::Id(n)) == "id"@ + ":"@ + decimal(n as nat));
    assert(("id"@ + ":"@ + decimal(n as nat)).len() >= 4);
}

pub proof fn lemma_structured_pane_round(p: PaneTarget, command: Seq<char>)
    ensures
        dec_structured_pane_target(pane_target_text(p), command) == Ok::<PaneTarget, Seq<char>>(p),
        part_ok(pane_target_text(p)),
{
    match p {
        PaneTarget::Active => {
            reveal_strlit("active");
            assert(tame("active"@));
            lemma_tame_part_ok("active"@);
        },
        PaneTarget::Index(n) => lemma_pane_index_text(n, command),
        PaneTarget::Id(n) => lemma_pane_id_text(n, command),
    }
}

proof fn lemma_plain_concat(a: Seq<char>, b: Seq<char>)
    requires
        plain_field(a),
        plain_field(b),
    ensures
        plain_field(a + b),
{
    vstd::seq_lib::lemma_seq_concat_contains_all_elements(a, b, '\t');
    vstd::seq_lib::lemma_seq_concat_contains_all_elements(a, b, '\n');
}

/// Three pieces joined by a separator.
pub proof fn lemma_join3(a: Seq<char>, b: Seq<char>, c: Seq<char>, sep: char)
    ensures
        join(seq![a, b, c], sep) == a.push(sep) + b.push(sep) + c,
{
    let parts = seq![a, b, c];
    assert(parts.drop_last() =~= seq![a, b]);
    assert(seq![a, b].drop_last() =~= seq![a]);
    assert(join(seq![a], sep) == a);
    assert(join(seq![a, b], sep) == a.push(sep) + b);
    assert(join(parts, sep) == (a.push(sep) + b).push(sep) + c);
    assert(a.push(sep) + b.push(sep) + c =~= (a.push(sep) + b).push(sep) + c);
}

/// Three bar-free plain parts joined by bars split back into those parts.
#[verifier::spinoff_prover]
proof fn lemma_bar_parts(a: Seq<char>, b: Seq<char>, c: Seq<char>)
    requires
        !a.contains('|'),
        !b.contains('|'),
        !c.contains('|'),
        plain_field(a),
        plain_field(b),
        plain_field(c),
    ensures
        split(join(seq![a, b, c], '|'), '|') == seq![a, b, c],
        plain_field(join(seq![a, b, c], '|')),
{
    let parts = seq![a, b, c];
    assert forall|i: int| 0 <= i < parts.len() implies !(#[trigger] parts[i]).contains('|') by {}
    lemma_split_join(parts, '|');
    lemma_join3(a, b, c, '|');
    let bar = seq!['|'];
    assert(plain_field(bar));
    lemma_plain_concat(a, bar);
    assert(a + bar == a.push('|'));
    lemma_plain_concat(b, bar);
    assert(b + bar == b.push('|'));
    lemma_plain_concat(a.push('|'), b.push('|'));
    lemma_plain_concat(a.push('|') + b.push('|'), c);
}

#[verifier::spinoff_prover]
proof fn lemma_target_parts(t: TargetView, command: Seq<char>)
    ensures
        split(target_text(t), '|') == seq![
            hex_text(t.session),
            window_target_text(t.window),
            pane_target_text(t.pane),
        ],
        plain_field(target_text(t)),
{
    let a = hex_text(t.session);
    let b = window_target_text(t.window);
    let c = pane_target_text(t.pane);
    assert(part_ok(a)) by {
        lemma_hex_text_round(t.session, command);
        lemma_tame_part_ok(a);
    }
    assert(part_ok(b)) by {
        lemma_structured_window_round(t.window, command);
    }
    assert(part_ok(c)) by {
        lemma_structured_pane_round(t.pane, command);
    }
    reveal_strlit("|");
    assert(target_text(t) =~= a.push('|') + b.push('|') + c);
    lemma_join3(a, b, c, '|');
    lemma_bar_parts(a, b, c);
}

/// A target field whose three parts decode decodes to the target they make.
#[verifier::spinoff_prover]
proof fn lemma_dec_target_of(
    value: Seq<char>,
    command: Seq<char>,
    a: Seq<char>,
    b: Seq<char>,
    c: Seq<char>,
    t: TargetView,
)
    requires
        split(value, '|') == seq![a, b, c],
        dec_utf8_hex(a, command) == Ok::<Seq<char>, Seq<char>>(t.session),
        dec_structured_window_target(b, command) == Ok::<WindowTargetView, Seq<char>>(t.window),
        dec_structured_pane_target(c, command) == Ok::<PaneTarget, Seq<char>>(t.pane),
    ensures
        dec_target(value, command) == Ok::<TargetView, Seq<char>>(t),
{
    let parts = split(value, '|');
    assert(parts.len() == 3);
    assert(parts[0] == a && parts[1] == b && parts[2] == c);
}

/// A target decodes back to itself.
#[verifier::spinoff_prover]
pub proof fn lemma_target_round(t: TargetView, command: Seq<char>)
    ensures
        dec_target(target_text(t), command) == Ok::<TargetView, Seq<char>>(t),
        plain_field(target_text(t)),
{
    lemma_target_parts(t, command);
    lemma_hex_text_round(t.session, command);
    lemma_structured_window_round(t.window, command);
    lemma_structured_pane_round(t.pane, command);
    lemma_dec_target_of(
        target_text(t),
        command,
        hex_text(t.session),
        window_target_text(t.window),
        pane_target_text(t.pane),
        t,
    );
}

/// A target's text is three `|`-separated pieces (the session's UTF-8
/// bytes in lowercase hex, the window, the pane) and holds no tab or
/// newline.
#[verifier::spinoff_prover]
pub proof fn law_target_text_pieces(a: TargetView)
    ensures
        split(target_text(a), '|') == seq![hex(encode_utf8(a.session)), window_target_text(a.window), pane_target_text(a.pane)],
        !target_text(a).contains('\t'),
        !target_text(a).contains('\n'),
{
    lemma_target_parts(a, seq![]);
}

/// Different targets give different texts.
#[verifier::spinoff_prover]
pub proof fn law_target_text_injective(a: TargetView, b: TargetView)
    ensures
        target_text(a) == target_text(b) ==> a == b,
{
    if target_text(a) == target_text(b) {
        lemma_target_round(a, seq![]);
        lemma_target_round(b, seq![]);
        assert(dec_target(target_text(a), seq![]) == dec_target(target_text(b), seq![]));
    }
}

/// A command's arguments decode back to themselves unless one contains the
/// argument separator, a tab or a newline, or the command is one empty
/// argument.
pub proof fn lemma_command_round(command: Seq<Seq<char>>, name: Seq<char>)
    requires
        forall|i: int| 0 <= i < command.len() ==> plain_argument(#[trigger] command[i]),
        !(command.len() == 1 && command[0].len() == 0),
        command.len() <= usize::MAX,
    ensures
        dec_command(decimal(command.len()), command_text(command), name) == Ok::<
            Seq<Seq<char>>,
            Seq<char>,
        >(command),
        plain_field(command_text(command)),
        tame(decimal(command.len())),
{
    lemma_decimal_round(command.len() as usize);
    if command.len() == 0 {
        assert(command =~= Seq::<Seq<char>>::empty());
    } else {
        assert forall|i: int| 0 <= i < command.len() implies !(
        #[trigger] command[i]).contains(ARG_SEPARATOR) by {
            assert(plain_argument(command[i]));
        }
        lemma_split_join(command, ARG_SEPARATOR);
        lemma_join_plain(command);
        if command.len() == 1 {
            assert(command_text(command) == command[0]);
        } else {
            lemma_join_len(command);
        }
    }
}

/// An argument that can travel inside a command field.
pub open spec fn plain_argument(s: Seq<char>) -> bool {
    !s.contains('\t') && !s.contains('\n') && !s.contains(ARG_SEPARATOR)
}

proof fn lemma_join_plain(command: Seq<Seq<char>>)
    requires
        command.len() >= 1,
        forall|i: int| 0 <= i < command.len() ==> plain_argument(#[trigger] command[i]),
    ensures
        plain_field(join(command, ARG_SEPARATOR)),
    decreases command.len(),
{
    broadcast use vstd::seq_lib::lemma_seq_concat_contains_all_elements;
    broadcast use vstd::seq_lib::lemma_seq_contains_after_push;

    if command.len() > 1 {
        let init = command.drop_last();
        assert forall|i: int| 0 <= i < init.len() implies plain_argument(#[trigger] init[i]) by {
            assert(init[i] == command[i]);
        }
        lemma_join_plain(init);
        assert(plain_argument(command[command.len() - 1]));
    } else {
        assert(plain_argument(command[0]));
    }
}

proof fn lemma_join_len(command: Seq<Seq<char>>)
    requires
        command.len() >= 2,
    ensures
        join(command, ARG_SEPARATOR).len() > 0,
{
}

/// A new-session request decodes back to itself.
#[verifier::rlimit(60)]
pub proof fn law_new_round_trip(session: Seq<char>, command: Seq<Seq<char>>)
    requires
        plain_field(session), forall|i: int| 0 <= i < command.len() ==> plain_argument(#[trigger] command[i]), !(command.len() == 1 && command[0].len() == 0), command.len() <= usize::MAX,
    ensures
        decode_request_spec(line_of(seq!["NEW"@, session, decimal(command.len()), command_text(command)])) == Ok::<RequestView, Seq<char>>(
            RequestView::New { session, command, cwd: None },
        ),
{
    let fields = seq!["NEW"@, session, decimal(command.len()), command_text(command)];
    reveal_strlit("NEW");
    assert(tame("NEW"@));
    lemma_tame_plain("NEW"@);
    lemma_command_round(command, "NEW"@);
    lemma_tame_plain(decimal(command.len()));
    lemma_command_round(command, "NEW"@);
    assert forall|i: int| 0 <= i < fields.len() implies plain_field(#[trigger] fields[i]) by {}
    lemma_line_fields(fields);
    reveal(decode_group_0_spec);
}

/// A new-session request with a working directory decodes back to itself.
#[verifier::rlimit(60)]
pub proof fn law_new_in_cwd_round_trip(session: Seq<char>, command: Seq<Seq<char>>, cwd: Seq<u8>)
    requires
        plain_field(session), forall|i: int| 0 <= i < command.len() ==> plain_argument(#[trigger] command[i]), !(command.len() == 1 && command[0].len() == 0), command.len() <= usize::MAX,
    ensures
        decode_request_spec(line_of(seq!["NEW_CWD"@, session, hex(cwd), decimal(command.len()), command_text(command)])) == Ok::<RequestView, Seq<char>>(
            RequestView::New { session, command, cwd: Some(cwd) },
        ),
{
    let fields = seq!["NEW_CWD"@, session, hex(cwd), decimal(command.len()), command_text(command)];
    reveal_strlit("NEW_CWD");
    assert(tame("NEW_CWD"@));
    lemma_tame_plain("NEW_CWD"@);
    lemma_bytes_round(cwd);
    lemma_tame_plain(hex(cwd));
    lemma_command_round(command, "NEW_CWD"@);
    lemma_tame_plain(decimal(command.len()));
    lemma_command_round(command, "NEW_CWD"@);
    assert forall|i: int| 0 <= i < fields.len() implies plain_field(#[trigger] fields[i]) by {}
    lemma_line_fields(fields);
    reveal(decode_group_0_spec);
}

/// A `ATTACH` request decodes back to itself.
#[verifier::rlimit(60)]
pub proof fn law_attach_round_trip(session: Seq<char>)
    requires
        plain_field(session),
    ensures
        decode_request_spec(line_of(seq!["ATTACH"@, session])) == Ok::<RequestView, Seq<char>>(
            RequestView::Attach { session },
        ),
{
    let fields = seq!["ATTACH"@, session];
    reveal_strlit("ATTACH");
    assert(tame("ATTACH"@));
    lemma_tame_plain("ATTACH"@);
    assert forall|i: int| 0 <= i < fields.len() implies plain_field(#[trigger] fields[i]) by {}
    lemma_line_fields(fields);
    reveal(decode_group_0_spec);
}

/// A `ATTACH_RAW_STATE` request decodes back to itself.
#[verifier::rlimit(60)]
pub proof fn law_attach_raw_state_round_trip(session: Seq<char>)
    requires
        plain_field(session),
    ensures
        decode_request_spec(line_of(seq!["ATTACH_RAW_STATE"@, session])) == Ok::<RequestView, Seq<char>>(
            RequestView::AttachRawState { session },
        ),
{
    let fields = seq!["ATTACH_RAW_STATE"@, session];
    reveal_strlit("ATTACH_RAW_STATE");
    assert(tame("ATTACH_RAW_STATE"@));
    lemma_tame_plain("ATTACH_RAW_STATE"@);
    assert forall|i: int| 0 <= i < fields.len() implies plain_field(#[trigger] fields[i]) by {}
    lemma_line_fields(fields);
    reveal(decode_group_0_spec);
}

/// A `ATTACH_SNAPSHOT` request decodes back to itself.
#[verifier::rlimit(60)]
pub proof fn law_attach_snapshot_round_trip(session: Seq<char>)
    requires
        plain_field(session),
    ensures
        decode_request_spec(line_of(seq!["ATTACH_SNAPSHOT"@, session])) == Ok::<RequestView, Seq<char>>(
            RequestView::AttachSnapshot { session },
        ),
{
    let fields = seq!["ATTACH_SNAPSHOT"@, session];
    reveal_strlit("ATTACH_SNAPSHOT");
    assert(tame("ATTACH_SNAPSHOT"@));
    lemma_tame_plain("ATTACH_SNAPSHOT"@);
    assert forall|i: int| 0 <= i < fields.len() implies plain_field(#[trigger] fields[i]) by {}
    lemma_line_fields(fields);
    lemma_groups_none(fields);
    reveal(decode_group_2_spec);
}

/// A `ATTACH_LAYOUT_SNAPSHOT` request decodes back to itself.
#[verifier::rlimit(60)]
pub proof fn law_attach_layout_snapshot_round_trip(session: Seq<char>)
    requires
        plain_field(session),
    ensures
        decode_request_spec(line_of(seq!["ATTACH_LAYOUT_SNAPSHOT"@, session])) == Ok::<RequestView, Seq<char>>(
            RequestView::AttachLayoutSnapshot { session },
        ),
{
    let fields = seq!["ATTACH_LAYOUT_SNAPSHOT"@, session];
    reveal_strlit("ATTACH_LAYOUT_SNAPSHOT");
    assert(tame("ATTACH_LAYOUT_SNAPSHOT"@));
    lemma_tame_plain("ATTACH_LAYOUT_SNAPSHOT"@);
    assert forall|i: int| 0 <= i < fields.len() implies plain_field(#[trigger] fields[i]) by {}
    lemma_line_fields(fields);
    lemma_groups_none(fields);
    reveal(decode_group_2_spec);
}

/// A `ATTACH_LAYOUT_FRAME` request decodes back to itself.
#[verifier::rlimit(60)]
pub proof fn law_attach_layout_frame_round_trip(session: Seq<char>)
    requires
        plain_field(session),
    ensures
        decode_request_spec(line_of(seq!["ATTACH_LAYOUT_FRAME"@, session])) == Ok::<RequestView, Seq<char>>(
            RequestView::AttachLayoutFrame { session },
        ),
{
    let fields = seq!["ATTACH_LAYOUT_FRAME"@, session];
    reveal_strlit("ATTACH_LAYOUT_FRAME");
    assert(tame("ATTACH_LAYOUT_FRAME"@));
    lemma_tame_plain("ATTACH_LAYOUT_FRAME"@);
    assert forall|i: int| 0 <= i < fields.len() implies plain_field(#[trigger] fields[i]) by {}
    lemma_line_fields(fields);
    lemma_groups_none(fields);
    reveal(decode_group_3_spec);
}

/// A `ATTACH_EVENTS` request decodes back to itself.
#[verifier::rlimit(60)]
pub proof fn law_attach_events_round_trip(session: Seq<char>)
    requires
        plain_field(session),
    ensures
        decode_request_spec(line_of(seq!["ATTACH_EVENTS"@, session])) == Ok::<RequestView, Seq<char>>(
            RequestView::AttachEvents { session },
        ),
{
    let fields = seq!["ATTACH_EVENTS"@, session];
    reveal_strlit("ATTACH_EVENTS");
    assert(tame("ATTACH_EVENTS"@));
    lemma_tame_plain("ATTACH_EVENTS"@);
    assert forall|i: int| 0 <= i < fields.len() implies plain_field(#[trigger] fields[i]) by {}
    lemma_line_fields(fields);
    lemma_groups_none(fields);
    reveal(decode_group_3_spec);
}

/// A `ATTACH_RENDER` request decodes back to itself.
#[verifier::rlimit(60)]
pub proof fn law_attach_render_round_trip(session: Seq<char>)
    requires
        plain_field(session),
    ensures
        decode_request_spec(line_of(seq!["ATTACH_RENDER"@, session])) == Ok::<RequestView, Seq<char>>(
            RequestView::AttachRender { session },
        ),
{
    let fields = seq!["ATTACH_RENDER"@, session];
    reveal_strlit("ATTACH_RENDER");
    assert(tame("ATTACH_RENDER"@));
    lemma_tame_plain("ATTACH_RENDER"@);
    assert forall|i: int| 0 <= i < fields.len() implies plain_field(#[trigger] fields[i]) by {}
    lemma_line_fields(fields);
    lemma_groups_none(fields);
    reveal(decode_group_3_spec);
}

/// A `NEXT_WINDOW` request decodes back to itself.
#[verifier::rlimit(60)]
pub proof fn law_next_window_round_trip(session: Seq<char>)
    requires
        plain_field(session),
    ensures
        decode_request_spec(line_of(seq!["NEXT_WINDOW"@, session])) == Ok::<RequestView, Seq<char>>(
            RequestView::NextWindow { session },
        ),
{
    let fields = seq!["NEXT_WINDOW"@, session];
    reveal_strlit("NEXT_WINDOW");
    assert(tame("NEXT_WINDOW"@));
    lemma_tame_plain("NEXT_WINDOW"@);
    assert forall|i: int| 0 <= i < fields.len() implies plain_field(#[trigger] fields[i]) by {}
    lemma_line_fields(fields);
    lemma_groups_none(fields);
    reveal(decode_group_19_spec);
}

/// A `PREVIOUS_WINDOW` request decodes back to itself.
#[verifier::rlimit(60)]
pub proof fn law_previous_window_round_trip(session: Seq<char>)
    requires
        plain_field(session),
    ensures
        decode_request_spec(line_of(seq!["PREVIOUS_WINDOW"@, session])) == Ok::<RequestView, Seq<char>>(
            RequestView::PreviousWindow { session },
        ),
{
    let fields = seq!["PREVIOUS_WINDOW"@, session];
    reveal_strlit("PREVIOUS_WINDOW");
    assert(tame("PREVIOUS_WINDOW"@));
    lemma_tame_plain("PREVIOUS_WINDOW"@);
    assert forall|i: int| 0 <= i < fields.len() implies plain_field(#[trigger] fields[i]) by {}
    lemma_line_fields(fields);
    lemma_groups_none(fields);
    reveal(decode_group_19_spec);
}

/// A `KILL` request decodes back to itself.
#[verifier::rlimit(60)]
pub proof fn law_kill_round_trip(session: Seq<char>)
    requires
        plain_field(session),
    ensures
        decode_request_spec(line_of(seq!["KILL"@, session])) == Ok::<RequestView, Seq<char>>(
            RequestView::Kill { session },
        ),
{
    let fields = seq!["KILL"@, session];
    reveal_strlit("KILL");
    assert(tame("KILL"@));
    lemma_tame_plain("KILL"@);
    assert forall|i: int| 0 <= i < fields.len() implies plain_field(#[trigger] fields[i]) by {}
    lemma_line_fields(fields);
    lemma_groups_none(fields);
    reveal(decode_group_23_spec);
}

/// The plain session listing decodes back to itself.
#[verifier::rlimit(60)]
pub proof fn law_list_round_trip()
    ensures
        decode_request_spec(line_of(seq!["LIST"@])) == Ok::<RequestView, Seq<char>>(
            RequestView::List,
        ),
{
    let fields = seq!["LIST"@];
    reveal_strlit("LIST");
    assert(tame("LIST"@));
    lemma_tame_plain("LIST"@);
    assert forall|i: int| 0 <= i < fields.len() implies plain_field(#[trigger] fields[i]) by {}
    lemma_line_fields(fields);
    lemma_groups_none(fields);
    reveal(decode_group_1_spec);
}

/// The server shutdown request decodes back to itself.
#[verifier::rlimit(60)]
pub proof fn law_kill_server_round_trip()
    ensures
        decode_request_spec(line_of(seq!["KILL_SERVER"@])) == Ok::<RequestView, Seq<char>>(
            RequestView::KillServer,
        ),
{
    let fields = seq!["KILL_SERVER"@];
    reveal_strlit("KILL_SERVER");
    assert(tame("KILL_SERVER"@));
    lemma_tame_plain("KILL_SERVER"@);
    assert forall|i: int| 0 <= i < fields.len() implies plain_field(#[trigger] fields[i]) by {}
    lemma_line_fields(fields);
    lemma_groups_none(fields);
    reveal(decode_group_23_spec);
}

/// A formatted session listing decodes back to itself.
#[verifier::rlimit(60)]
pub proof fn law_list_sessions_format_round_trip(format: Seq<char>)
    ensures
        decode_request_spec(line_of(seq!["LIST_SESSIONS_FORMAT"@, hex_text(format)])) == Ok::<RequestView, Seq<char>>(
            RequestView::ListSessions { format: Some(format) },
        ),
{
    let fields = seq!["LIST_SESSIONS_FORMAT"@, hex_text(format)];
    reveal_strlit("LIST_SESSIONS_FORMAT");
    assert(tame("LIST_SESSIONS_FORMAT"@));
    lemma_tame_plain("LIST_SESSIONS_FORMAT"@);
    lemma_hex_text_round(format, "LIST_SESSIONS_FORMAT"@);
    lemma_tame_plain(hex_text(format));
    assert forall|i: int| 0 <= i < fields.len() implies plain_field(#[trigger] fields[i]) by {}
    lemma_line_fields(fields);
    lemma_groups_none(fields);
    reveal(decode_group_1_spec);
}

/// The plain buffer listing decodes back to itself.
#[verifier::rlimit(60)]
pub proof fn law_list_buffers_round_trip()
    ensures
        decode_request_spec(line_of(seq!["LIST_BUFFERS"@])) == Ok::<RequestView, Seq<char>>(
            RequestView::ListBuffers { format: None },
        ),
{
    let fields = seq!["LIST_BUFFERS"@];
    reveal_strlit("LIST_BUFFERS");
    assert(tame("LIST_BUFFERS"@));
    lemma_tame_plain("LIST_BUFFERS"@);
    assert forall|i: int| 0 <= i < fields.len() implies plain_field(#[trigger] fields[i]) by {}
    lemma_line_fields(fields);
    lemma_groups_none(fields);
    reveal(decode_group_8_spec);
}

/// A formatted buffer listing decodes back to itself.
#[verifier::rlimit(60)]
pub proof fn law_list_buffers_format_round_trip(format: Seq<char>)
    ensures
        decode_request_spec(line_of(seq!["LIST_BUFFERS_FORMAT"@, hex_text(format)])) == Ok::<RequestView, Seq<char>>(
            RequestView::ListBuffers { format: Some(format) },
        ),
{
    let fields = seq!["LIST_BUFFERS_FORMAT"@, hex_text(format)];
    reveal_strlit("LIST_BUFFERS_FORMAT");
    assert(tame("LIST_BUFFERS_FORMAT"@));
    lemma_tame_plain("LIST_BUFFERS_FORMAT"@);
    lemma_hex_text_round(format, "LIST_BUFFERS_FORMAT"@);
    lemma_tame_plain(hex_text(format));
    assert forall|i: int| 0 <= i < fields.len() implies plain_field(#[trigger] fields[i]) by {}
    lemma_line_fields(fields);
    lemma_groups_none(fields);
    reveal(decode_group_8_spec);
}

/// A session rename decodes back to itself.
#[verifier::rlimit(60)]
pub proof fn law_rename_session_round_trip(old_name: Seq<char>, new_name: Seq<char>)
    ensures
        decode_request_spec(line_of(seq!["RENAME_SESSION"@, hex_text(old_name), hex_text(new_name)])) == Ok::<RequestView, Seq<char>>(
            RequestView::RenameSession { old_name, new_name },
        ),
{
    let fields = seq!["RENAME_SESSION"@, hex_text(old_name), hex_text(new_name)];
    reveal_strlit("RENAME_SESSION");
    assert(tame("RENAME_SESSION"@));
    lemma_tame_plain("RENAME_SESSION"@);
    lemma_hex_text_round(old_name, "RENAME_SESSION"@);
    lemma_tame_plain(hex_text(old_name));
    lemma_hex_text_round(new_name, "RENAME_SESSION"@);
    lemma_tame_plain(hex_text(new_name));
    assert forall|i: int| 0 <= i < fields.len() implies plain_field(#[trigger] fields[i]) by {}
    lemma_line_fields(fields);
    lemma_groups_none(fields);
    reveal(decode_group_1_spec);
}

/// A client listing decodes back to itself unless a text given is empty.
#[verifier::rlimit(60)]
pub proof fn law_list_clients_round_trip(session: Option<Seq<char>>, format: Option<Seq<char>>)
    requires
        session != Some(Seq::<char>::empty()), format != Some(Seq::<char>::empty()),
    ensures
        decode_request_spec(line_of(seq!["LIST_CLIENTS"@, opt_text(session), opt_text(format)])) == Ok::<RequestView, Seq<char>>(
            RequestView::ListClients { session, format },
        ),
{
    let fields = seq!["LIST_CLIENTS"@, opt_text(session), opt_text(format)];
    reveal_strlit("LIST_CLIENTS");
    assert(tame("LIST_CLIENTS"@));
    lemma_tame_plain("LIST_CLIENTS"@);
    lemma_opt_text_round(session, "LIST_CLIENTS"@);
    lemma_tame_plain(opt_text(session));
    lemma_opt_text_round(format, "LIST_CLIENTS"@);
    lemma_tame_plain(opt_text(format));
    assert forall|i: int| 0 <= i < fields.len() implies plain_field(#[trigger] fields[i]) by {}
    lemma_line_fields(fields);
    lemma_groups_none(fields);
    reveal(decode_group_2_spec);
}

/// A detach request decodes back to itself unless the session given is empty.
#[verifier::rlimit(60)]
pub proof fn law_detach_client_round_trip(session: Option<Seq<char>>, client_id: Option<usize>)
    requires
        session != Some(Seq::<char>::empty()),
    ensures
        decode_request_spec(line_of(seq!["DETACH_CLIENT"@, opt_text(session), opt_number(client_id)])) == Ok::<RequestView, Seq<char>>(
            RequestView::DetachClient { session, client_id },
        ),
{
    let fields = seq!["DETACH_CLIENT"@, opt_text(session), opt_number(client_id)];
    reveal_strlit("DETACH_CLIENT");
    assert(tame("DETACH_CLIENT"@));
    lemma_tame_plain("DETACH_CLIENT"@);
    lemma_opt_text_round(session, "DETACH_CLIENT"@);
    lemma_tame_plain(opt_text(session));
    lemma_client_id_round(client_id);
    lemma_tame_plain(opt_number(client_id));
    assert forall|i: int| 0 <= i < fields.len() implies plain_field(#[trigger] fields[i]) by {}
    lemma_line_fields(fields);
    lemma_groups_none(fields);
    reveal(decode_group_2_spec);
}

/// A plain capture request decodes to a capture of the session's active pane.
#[verifier::rlimit(60)]
pub proof fn law_capture_round_trip(session: Seq<char>, mode: CaptureMode)
    requires
        plain_field(session),
    ensures
        decode_request_spec(line_of(seq!["CAPTURE"@, session, capture_mode_text(mode)])) == Ok::<RequestView, Seq<char>>(
            RequestView::Capture { target: active_target(session), mode, selection: BufferSelectionView::All },
        ),
{
    let fields = seq!["CAPTURE"@, session, capture_mode_text(mode)];
    reveal_strlit("CAPTURE");
    assert(tame("CAPTURE"@));
    lemma_tame_plain("CAPTURE"@);
    lemma_mode_round(mode);
    lemma_tame_plain(capture_mode_text(mode));
    assert forall|i: int| 0 <= i < fields.len() implies plain_field(#[trigger] fields[i]) by {}
    lemma_line_fields(fields);
    lemma_groups_none(fields);
    reveal(decode_group_4_spec);
}

/// A capture of a target decodes back to itself.
#[verifier::rlimit(60)]
pub proof fn law_capture_target_round_trip(target: TargetView, mode: CaptureMode)
    ensures
        decode_request_spec(line_of(seq!["CAPTURE_TARGET"@, target_text(target), capture_mode_text(mode)])) == Ok::<RequestView, Seq<char>>(
            RequestView::Capture { target, mode, selection: BufferSelectionView::All },
        ),
{
    let fields = seq!["CAPTURE_TARGET"@, target_text(target), capture_mode_text(mode)];
    reveal_strlit("CAPTURE_TARGET");
    assert(tame("CAPTURE_TARGET"@));
    lemma_tame_plain("CAPTURE_TARGET"@);
    lemma_target_round(target, "CAPTURE_TARGET"@);
    lemma_mode_round(mode);
    lemma_tame_plain(capture_mode_text(mode));
    assert forall|i: int| 0 <= i < fields.len() implies plain_field(#[trigger] fields[i]) by {}
    lemma_line_fields(fields);
    lemma_groups_none(fields);
    reveal(decode_group_4_spec);
}

/// A capture of a line range decodes back to itself when neither bound is zero.
#[verifier::rlimit(60)]
pub proof fn law_capture_target_lines_round_trip(target: TargetView, mode: CaptureMode, start: isize, end: isize)
    requires
        start != 0, end != 0,
    ensures
        decode_request_spec(line_of(seq!["CAPTURE_TARGET_LINES"@, target_text(target), capture_mode_text(mode), signed_decimal(start as int), signed_decimal(end as int)])) == Ok::<RequestView, Seq<char>>(
            RequestView::Capture { target, mode, selection: BufferSelectionView::LineRange { start, end } },
        ),
{
    let fields = seq!["CAPTURE_TARGET_LINES"@, target_text(target), capture_mode_text(mode), signed_decimal(start as int), signed_decimal(end as int)];
    reveal_strlit("CAPTURE_TARGET_LINES");
    assert(tame("CAPTURE_TARGET_LINES"@));
    lemma_tame_plain("CAPTURE_TARGET_LINES"@);
    lemma_target_round(target, "CAPTURE_TARGET_LINES"@);
    lemma_mode_round(mode);
    lemma_tame_plain(capture_mode_text(mode));
    lemma_line_offset_round(start, "CAPTURE_TARGET_LINES has invalid start line"@);
    lemma_tame_plain(signed_decimal(start as int));
    lemma_line_offset_round(end, "CAPTURE_TARGET_LINES has invalid end line"@);
    lemma_tame_plain(signed_decimal(end as int));
    assert forall|i: int| 0 <= i < fields.len() implies plain_field(#[trigger] fields[i]) by {}
    lemma_line_fields(fields);
    lemma_groups_none(fields);
    reveal(decode_group_5_spec);
}

/// A capture of a search match decodes back to itself when the match index is positive.
#[verifier::rlimit(60)]
pub proof fn law_capture_target_search_round_trip(target: TargetView, mode: CaptureMode, needle: Seq<char>, match_index: usize)
    requires
        match_index > 0,
    ensures
        decode_request_spec(line_of(seq!["CAPTURE_TARGET_SEARCH"@, target_text(target), capture_mode_text(mode), hex_text(needle), decimal(match_index as nat)])) == Ok::<RequestView, Seq<char>>(
            RequestView::Capture { target, mode, selection: BufferSelectionView::Search { needle, match_index } },
        ),
{
    let fields = seq!["CAPTURE_TARGET_SEARCH"@, target_text(target), capture_mode_text(mode), hex_text(needle), decimal(match_index as nat)];
    reveal_strlit("CAPTURE_TARGET_SEARCH");
    assert(tame("CAPTURE_TARGET_SEARCH"@));
    lemma_tame_plain("CAPTURE_TARGET_SEARCH"@);
    lemma_target_round(target, "CAPTURE_TARGET_SEARCH"@);
    lemma_mode_round(mode);
    lemma_tame_plain(capture_mode_text(mode));
    lemma_hex_text_round(needle, "CAPTURE_TARGET_SEARCH"@);
    lemma_tame_plain(hex_text(needle));
    lemma_positive_round(match_index, "CAPTURE_TARGET_SEARCH has invalid match index"@);
    lemma_decimal_round(match_index);
    lemma_tame_plain(decimal(match_index as nat));
    assert forall|i: int| 0 <= i < fields.len() implies plain_field(#[trigger] fields[i]) by {}
    lemma_line_fields(fields);
    lemma_groups_none(fields);
    reveal(decode_group_5_spec);
}

/// Saving a target's capture decodes back to itself unless the buffer name given is empty.
#[verifier::rlimit(60)]
pub proof fn law_save_buffer_target_round_trip(target: TargetView, buffer: Option<Seq<char>>, mode: CaptureMode)
    requires
        buffer != Some(Seq::<char>::empty()),
    ensures
        decode_request_spec(line_of(seq!["SAVE_BUFFER_TARGET"@, target_text(target), capture_mode_text(mode), opt_text(buffer)])) == Ok::<RequestView, Seq<char>>(
            RequestView::SaveBuffer { target, buffer, mode, selection: BufferSelectionView::All },
        ),
{
    let fields = seq!["SAVE_BUFFER_TARGET"@, target_text(target), capture_mode_text(mode), opt_text(buffer)];
    reveal_strlit("SAVE_BUFFER_TARGET");
    assert(tame("SAVE_BUFFER_TARGET"@));
    lemma_tame_plain("SAVE_BUFFER_TARGET"@);
    lemma_target_round(target, "SAVE_BUFFER_TARGET"@);
    lemma_mode_round(mode);
    lemma_tame_plain(capture_mode_text(mode));
    lemma_opt_text_round(buffer, "SAVE_BUFFER_TARGET"@);
    lemma_tame_plain(opt_text(buffer));
    assert forall|i: int| 0 <= i < fields.len() implies plain_field(#[trigger] fields[i]) by {}
    lemma_line_fields(fields);
    lemma_groups_none(fields);
    reveal(decode_group_6_spec);
}

/// Saving a line range decodes back to itself when neither bound is zero and the buffer name given is not empty.
#[verifier::rlimit(60)]
pub proof fn law_save_buffer_target_lines_round_trip(target: TargetView, buffer: Option<Seq<char>>, mode: CaptureMode, start: isize, end: isize)
    requires
        buffer != Some(Seq::<char>::empty()), start != 0, end != 0,
    ensures
        decode_request_spec(line_of(seq!["SAVE_BUFFER_TARGET_LINES"@, target_text(target), capture_mode_text(mode), opt_text(buffer), signed_decimal(start as int), signed_decimal(end as int)])) == Ok::<RequestView, Seq<char>>(
            RequestView::SaveBuffer { target, buffer, mode, selection: BufferSelectionView::LineRange { start, end } },
        ),
{
    let fields = seq!["SAVE_BUFFER_TARGET_LINES"@, target_text(target), capture_mode_text(mode), opt_text(buffer), signed_decimal(start as int), signed_decimal(end as int)];
    reveal_strlit("SAVE_BUFFER_TARGET_LINES");
    assert(tame("SAVE_BUFFER_TARGET_LINES"@));
    lemma_tame_plain("SAVE_BUFFER_TARGET_LINES"@);
    lemma_target_round(target, "SAVE_BUFFER_TARGET_LINES"@);
    lemma_mode_round(mode);
    lemma_tame_plain(capture_mode_text(mode));
    lemma_opt_text_round(buffer, "SAVE_BUFFER_TARGET_LINES"@);
    lemma_tame_plain(opt_text(buffer));
    lemma_line_offset_round(start, "SAVE_BUFFER_TARGET_LINES has invalid start line"@);
    lemma_tame_plain(signed_decimal(start as int));
    lemma_line_offset_round(end, "SAVE_BUFFER_TARGET_LINES has invalid end line"@);
    lemma_tame_plain(signed_decimal(end as int));
    assert forall|i: int| 0 <= i < fields.len() implies plain_field(#[trigger] fields[i]) by {}
    lemma_line_fields(fields);
    lemma_groups_none(fields);
    reveal(decode_group_6_spec);
}

/// Saving the first search match decodes back to itself unless the buffer name given is empty.
#[verifier::rlimit(60)]
pub proof fn law_save_buffer_target_first_match_round_trip(target: TargetView, buffer: Option<Seq<char>>, mode: CaptureMode, needle: Seq<char>)
    requires
        buffer != Some(Seq::<char>::empty()),
    ensures
        decode_request_spec(line_of(seq!["SAVE_BUFFER_TARGET_SEARCH"@, target_text(target), capture_mode_text(mode), opt_text(buffer), hex_text(needle)])) == Ok::<RequestView, Seq<char>>(
            RequestView::SaveBuffer { target, buffer, mode, selection: BufferSelectionView::Search { needle, match_index: 1 } },
        ),
        split(trim_newlines(line_of(seq!["SAVE_BUFFER_TARGET_SEARCH"@, target_text(target), capture_mode_text(mode), opt_text(buffer), hex_text(needle)])), '\t').len() == 5,
{
    let fields = seq!["SAVE_BUFFER_TARGET_SEARCH"@, target_text(target), capture_mode_text(mode), opt_text(buffer), hex_text(needle)];
    reveal_strlit("SAVE_BUFFER_TARGET_SEARCH");
    assert(tame("SAVE_BUFFER_TARGET_SEARCH"@));
    lemma_tame_plain("SAVE_BUFFER_TARGET_SEARCH"@);
    lemma_target_round(target, "SAVE_BUFFER_TARGET_SEARCH"@);
    lemma_mode_round(mode);
    lemma_tame_plain(capture_mode_text(mode));
    lemma_opt_text_round(buffer, "SAVE_BUFFER_TARGET_SEARCH"@);
    lemma_tame_plain(opt_text(buffer));
    lemma_hex_text_round(needle, "SAVE_BUFFER_TARGET_SEARCH"@);
    lemma_tame_plain(hex_text(needle));
    assert forall|i: int| 0 <= i < fields.len() implies plain_field(#[trigger] fields[i]) by {}
    lemma_line_fields(fields);
    lemma_groups_none(fields);
    reveal(decode_group_7_spec);
}

/// Saving a target's capture decodes back to itself for every selection
/// the command line gives (all lines, a range with nonzero bounds, or a
/// positive search match) unless the buffer name given is empty; the first
/// match is sent without its index.
pub proof fn law_save_buffer_target_selection_round_trip(
    target: TargetView,
    buffer: Option<Seq<char>>,
    mode: CaptureMode,
    selection: BufferSelectionView,
)
    requires
        buffer != Some(Seq::<char>::empty()),
        selection matches BufferSelectionView::LineRange { start, end } ==> start != 0 && end != 0,
        selection matches BufferSelectionView::Search { match_index, .. } ==> match_index > 0,
    ensures
        decode_request_spec(save_buffer_target_line(target, buffer, mode, selection)) == Ok::<RequestView, Seq<char>>(
            RequestView::SaveBuffer { target, buffer, mode, selection },
        ),
        selection matches BufferSelectionView::Search { match_index, .. } && match_index == 1 ==> split(
            trim_newlines(save_buffer_target_line(target, buffer, mode, selection)),
            '\t',
        ).len() == 5,
{
    match selection {
        BufferSelectionView::All => law_save_buffer_target_round_trip(target, buffer, mode),
        BufferSelectionView::LineRange { start, end } => law_save_buffer_target_lines_round_trip(target, buffer, mode, start, end),
        BufferSelectionView::Search { needle, match_index } => {
            if match_index == 1 {
                law_save_buffer_target_first_match_round_trip(target, buffer, mode, needle);
            } else {
                law_save_buffer_target_match_round_trip(target, buffer, mode, needle, match_index);
            }
        },
    }
}

/// Saving a later search match decodes back to itself unless the buffer name given is empty.
#[verifier::rlimit(60)]
pub proof fn law_save_buffer_target_match_round_trip(target: TargetView, buffer: Option<Seq<char>>, mode: CaptureMode, needle: Seq<char>, match_index: usize)
    requires
        buffer != Some(Seq::<char>::empty()), match_index > 0,
    ensures
        decode_request_spec(line_of(seq!["SAVE_BUFFER_TARGET_SEARCH"@, target_text(target), capture_mode_text(mode), opt_text(buffer), hex_text(needle), decimal(match_index as nat)])) == Ok::<RequestView, Seq<char>>(
            RequestView::SaveBuffer { target, buffer, mode, selection: BufferSelectionView::Search { needle, match_index } },
        ),
{
    let fields = seq!["SAVE_BUFFER_TARGET_SEARCH"@, target_text(target), capture_mode_text(mode), opt_text(buffer), hex_text(needle), decimal(match_index as nat)];
    reveal_strlit("SAVE_BUFFER_TARGET_SEARCH");
    assert(tame("SAVE_BUFFER_TARGET_SEARCH"@));
    lemma_tame_plain("SAVE_BUFFER_TARGET_SEARCH"@);
    lemma_target_round(target, "SAVE_BUFFER_TARGET_SEARCH"@);
    lemma_mode_round(mode);
    lemma_tame_plain(capture_mode_text(mode));
    lemma_opt_text_round(buffer, "SAVE_BUFFER_TARGET_SEARCH"@);
    lemma_tame_plain(opt_text(buffer));
    lemma_hex_text_round(needle, "SAVE_BUFFER_TARGET_SEARCH"@);
    lemma_tame_plain(hex_text(needle));
    lemma_positive_round(match_index, "SAVE_BUFFER_TARGET_SEARCH has invalid match index"@);
    lemma_decimal_round(match_index);
    lemma_tame_plain(decimal(match_index as nat));
    assert forall|i: int| 0 <= i < fields.len() implies plain_field(#[trigger] fields[i]) by {}
    lemma_line_fields(fields);
    lemma_groups_none(fields);
    reveal(decode_group_7_spec);
}

/// Saving text decodes back to itself when the text fits the size limit and the buffer name given is not empty.
#[verifier::rlimit(60)]
pub proof fn law_save_buffer_text_round_trip(session: Seq<char>, buffer: Option<Seq<char>>, text: Seq<char>)
    requires
        plain_field(session), buffer != Some(Seq::<char>::empty()), encode_utf8(text).len() <= MAX_SAVE_BUFFER_TEXT_BYTES,
    ensures
        decode_request_spec(line_of(seq!["SAVE_BUFFER_TEXT"@, session, opt_text(buffer), hex_text(text)])) == Ok::<RequestView, Seq<char>>(
            RequestView::SaveBufferText { session, buffer, text },
        ),
{
    let fields = seq!["SAVE_BUFFER_TEXT"@, session, opt_text(buffer), hex_text(text)];
    reveal_strlit("SAVE_BUFFER_TEXT");
    assert(tame("SAVE_BUFFER_TEXT"@));
    lemma_tame_plain("SAVE_BUFFER_TEXT"@);
    lemma_opt_text_round(buffer, "SAVE_BUFFER_TEXT"@);
    lemma_tame_plain(opt_text(buffer));
    lemma_hex_text_round(text, "SAVE_BUFFER_TEXT"@);
    lemma_tame_plain(hex_text(text));
    assert forall|i: int| 0 <= i < fields.len() implies plain_field(#[trigger] fields[i]) by {}
    crate::text::lemma_hex_utf8_len(encode_utf8(text));
    lemma_line_fields(fields);
    lemma_groups_none(fields);
    reveal(decode_group_7_spec);
}

/// A copy-mode request without a match index decodes back to itself unless the search given is empty.
#[verifier::rlimit(60)]
pub proof fn law_copy_mode_round_trip(session: Seq<char>, mode: CaptureMode, search: Option<Seq<char>>)
    requires
        plain_field(session), search != Some(Seq::<char>::empty()),
    ensures
        decode_request_spec(line_of(seq!["COPY_MODE"@, session, capture_mode_text(mode), opt_text(search)])) == Ok::<RequestView, Seq<char>>(
            RequestView::CopyMode { session, mode, search, match_index: None },
        ),
{
    let fields = seq!["COPY_MODE"@, session, capture_mode_text(mode), opt_text(search)];
    reveal_strlit("COPY_MODE");
    assert(tame("COPY_MODE"@));
    lemma_tame_plain("COPY_MODE"@);
    lemma_mode_round(mode);
    lemma_tame_plain(capture_mode_text(mode));
    lemma_opt_text_round(search, "COPY_MODE"@);
    lemma_tame_plain(opt_text(search));
    assert forall|i: int| 0 <= i < fields.len() implies plain_field(#[trigger] fields[i]) by {}
    lemma_line_fields(fields);
    lemma_groups_none(fields);
    reveal(decode_group_7_spec);
}

/// A copy-mode request with a positive match index and a search decodes back to itself.
#[verifier::rlimit(60)]
pub proof fn law_copy_mode_match_round_trip(session: Seq<char>, mode: CaptureMode, search: Seq<char>, match_index: usize)
    requires
        plain_field(session), search.len() > 0, match_index > 0,
    ensures
        decode_request_spec(line_of(seq!["COPY_MODE"@, session, capture_mode_text(mode), opt_text(Some(search)), decimal(match_index as nat)])) == Ok::<RequestView, Seq<char>>(
            RequestView::CopyMode { session, mode, search: Some(search), match_index: Some(match_index) },
        ),
{
    let fields = seq!["COPY_MODE"@, session, capture_mode_text(mode), opt_text(Some(search)), decimal(match_index as nat)];
    reveal_strlit("COPY_MODE");
    assert(tame("COPY_MODE"@));
    lemma_tame_plain("COPY_MODE"@);
    lemma_mode_round(mode);
    lemma_tame_plain(capture_mode_text(mode));
    lemma_opt_text_round(Some(search), "COPY_MODE"@);
    lemma_tame_plain(opt_text(Some(search)));
    lemma_positive_round(match_index, "COPY_MODE has invalid match index"@);
    lemma_decimal_round(match_index);
    lemma_tame_plain(decimal(match_index as nat));
    assert forall|i: int| 0 <= i < fields.len() implies plain_field(#[trigger] fields[i]) by {}
    lemma_line_fields(fields);
    lemma_groups_none(fields);
    reveal(decode_group_8_spec);
}

/// A line bound of zero is refused.
proof fn lemma_line_offset_zero(message: Seq<char>)
    ensures
        dec_line_offset(signed_decimal(0), message) == Err::<isize, Seq<char>>(message),
        tame(signed_decimal(0)),
{
    lemma_parse_signed_decimal(0isize);
    lemma_tame_signed(0);
}

/// A line bound decodes to itself, or is refused when it is zero.
proof fn lemma_line_offset_either(n: isize, message: Seq<char>)
    ensures
        n != 0 ==> dec_line_offset(signed_decimal(n as int), message) == Ok::<isize, Seq<char>>(n),
        n == 0 ==> dec_line_offset(signed_decimal(n as int), message) is Err,
        tame(signed_decimal(n as int)),
{
    if n == 0 {
        lemma_line_offset_zero(message);
    } else {
        lemma_line_offset_round(n, message);
    }
}

/// The decoder refuses a capture of a line range with a zero bound, which
/// the command line never asks for.
#[verifier::rlimit(60)]
pub proof fn law_capture_target_lines_refuses_zero(target: TargetView, mode: CaptureMode, start: isize, end: isize)
    requires
        start == 0 || end == 0,
    ensures
        decode_request_spec(line_of(seq!["CAPTURE_TARGET_LINES"@, target_text(target), capture_mode_text(mode), signed_decimal(start as int), signed_decimal(end as int)])) is Err,
{
    let fields = seq!["CAPTURE_TARGET_LINES"@, target_text(target), capture_mode_text(mode), signed_decimal(start as int), signed_decimal(end as int)];
    reveal_strlit("CAPTURE_TARGET_LINES");
    assert(tame("CAPTURE_TARGET_LINES"@));
    lemma_tame_plain("CAPTURE_TARGET_LINES"@);
    lemma_target_round(target, "CAPTURE_TARGET_LINES"@);
    lemma_mode_round(mode);
    lemma_tame_plain(capture_mode_text(mode));
    lemma_line_offset_either(start, "CAPTURE_TARGET_LINES has invalid start line"@);
    lemma_tame_plain(signed_decimal(start as int));
    lemma_line_offset_either(end, "CAPTURE_TARGET_LINES has invalid end line"@);
    lemma_tame_plain(signed_decimal(end as int));
    assert forall|i: int| 0 <= i < fields.len() implies plain_field(#[trigger] fields[i]) by {}
    lemma_line_fields(fields);
    lemma_groups_none(fields);
    reveal(decode_group_5_spec);
}

/// The decoder refuses a capture of a search match with index zero, which
/// the command line never asks for.
#[verifier::rlimit(60)]
pub proof fn law_capture_target_search_refuses_zero(target: TargetView, mode: CaptureMode, needle: Seq<char>)
    ensures
        decode_request_spec(line_of(seq!["CAPTURE_TARGET_SEARCH"@, target_text(target), capture_mode_text(mode), hex_text(needle), decimal(0)])) is Err,
{
    let fields = seq!["CAPTURE_TARGET_SEARCH"@, target_text(target), capture_mode_text(mode), hex_text(needle), decimal(0)];
    reveal_strlit("CAPTURE_TARGET_SEARCH");
    assert(tame("CAPTURE_TARGET_SEARCH"@));
    lemma_tame_plain("CAPTURE_TARGET_SEARCH"@);
    lemma_target_round(target, "CAPTURE_TARGET_SEARCH"@);
    lemma_mode_round(mode);
    lemma_tame_plain(capture_mode_text(mode));
    lemma_hex_text_round(needle, "CAPTURE_TARGET_SEARCH"@);
    lemma_tame_plain(hex_text(needle));
    lemma_decimal_round(0usize);
    lemma_tame_plain(decimal(0));
    assert(dec_positive_index(decimal(0), "CAPTURE_TARGET_SEARCH has invalid match index"@) is Err);
    assert forall|i: int| 0 <= i < fields.len() implies plain_field(#[trigger] fields[i]) by {}
    lemma_line_fields(fields);
    lemma_groups_none(fields);
    reveal(decode_group_5_spec);
}

/// The decoder refuses saved text longer than the buffer limit, with the
/// message for it.
#[verifier::rlimit(60)]
pub proof fn law_save_buffer_text_refuses_oversized(session: Seq<char>, buffer: Option<Seq<char>>, text: Seq<char>)
    requires
        plain_field(session), buffer != Some(Seq::<char>::empty()), encode_utf8(text).len() > MAX_SAVE_BUFFER_TEXT_BYTES,
    ensures
        decode_request_spec(line_of(seq!["SAVE_BUFFER_TEXT"@, session, opt_text(buffer), hex_text(text)])) == Err::<RequestView, Seq<char>>(
            "SAVE_BUFFER_TEXT exceeds maximum buffer size"@,
        ),
{
    let fields = seq!["SAVE_BUFFER_TEXT"@, session, opt_text(buffer), hex_text(text)];
    reveal_strlit("SAVE_BUFFER_TEXT");
    assert(tame("SAVE_BUFFER_TEXT"@));
    lemma_tame_plain("SAVE_BUFFER_TEXT"@);
    lemma_opt_text_round(buffer, "SAVE_BUFFER_TEXT"@);
    lemma_tame_plain(opt_text(buffer));
    lemma_hex_text_round(text, "SAVE_BUFFER_TEXT"@);
    lemma_tame_plain(hex_text(text));
    assert forall|i: int| 0 <= i < fields.len() implies plain_field(#[trigger] fields[i]) by {}
    crate::text::lemma_hex_utf8_len(encode_utf8(text));
    lemma_line_fields(fields);
    lemma_groups_none(fields);
    reveal(decode_group_7_spec);
}

/// The decoder refuses a copy-mode request whose match index is zero or
/// comes without search text.
#[verifier::rlimit(60)]
pub proof fn law_copy_mode_refuses_bad_match(session: Seq<char>, mode: CaptureMode, search: Option<Seq<char>>, match_index: usize)
    requires
        plain_field(session),
        match_index == 0 || search is None || search == Some(Seq::<char>::empty()),
    ensures
        decode_request_spec(line_of(seq!["COPY_MODE"@, session, capture_mode_text(mode), opt_text(search), decimal(match_index as nat)])) is Err,
{
    let fields = seq!["COPY_MODE"@, session, capture_mode_text(mode), opt_text(search), decimal(match_index as nat)];
    reveal_strlit("COPY_MODE");
    assert(tame("COPY_MODE"@));
    lemma_tame_plain("COPY_MODE"@);
    lemma_mode_round(mode);
    lemma_tame_plain(capture_mode_text(mode));
    let found: Option<Seq<char>> = if search == Some(Seq::<char>::empty()) {
        None
    } else {
        search
    };
    if search == Some(Seq::<char>::empty()) {
        assert(encode_utf8(Seq::<char>::empty()) =~= Seq::<u8>::empty()) by {
            crate::text::lemma_hex_utf8_len(Seq::<u8>::empty());
            vstd::utf8::encode_utf8_decode_utf8(Seq::<char>::empty());
        }
        assert(opt_text(search).len() == 0);
        assert(plain_field(opt_text(search)));
    } else {
        lemma_opt_text_round(search, "COPY_MODE"@);
        lemma_tame_plain(opt_text(search));
    }
    assert(dec_optional_text(opt_text(search), "COPY_MODE"@) == Ok::<Option<Seq<char>>, Seq<char>>(found));
    lemma_decimal_round(match_index);
    lemma_tame_plain(decimal(match_index as nat));
    if match_index > 0 {
        lemma_positive_round(match_index, "COPY_MODE has invalid match index"@);
    }
    assert forall|i: int| 0 <= i < fields.len() implies plain_field(#[trigger] fields[i]) by {}
    lemma_line_fields(fields);
    lemma_groups_none(fields);
    reveal(decode_group_8_spec);
}

/// A paste request decodes back to itself unless the buffer name given is empty.
#[verifier::rlimit(60)]
pub proof fn law_paste_buffer_target_round_trip(target: TargetView, buffer: Option<Seq<char>>)
    requires
        buffer != Some(Seq::<char>::empty()),
    ensures
        decode_request_spec(line_of(seq!["PASTE_BUFFER_TARGET"@, target_text(target), opt_text(buffer)])) == Ok::<RequestView, Seq<char>>(
            RequestView::PasteBuffer { target, buffer },
        ),
{
    let fields = seq!["PASTE_BUFFER_TARGET"@, target_text(target), opt_text(buffer)];
    reveal_strlit("PASTE_BUFFER_TARGET");
    assert(tame("PASTE_BUFFER_TARGET"@));
    lemma_tame_plain("PASTE_BUFFER_TARGET"@);
    lemma_target_round(target, "PASTE_BUFFER_TARGET"@);
    lemma_opt_text_round(buffer, "PASTE_BUFFER_TARGET"@);
    lemma_tame_plain(opt_text(buffer));
    assert forall|i: int| 0 <= i < fields.len() implies plain_field(#[trigger] fields[i]) by {}
    lemma_line_fields(fields);
    lemma_groups_none(fields);
    reveal(decode_group_9_spec);
}

/// A buffer deletion decodes back to itself.
#[verifier::rlimit(60)]
pub proof fn law_delete_buffer_round_trip(buffer: Seq<char>)
    ensures
        decode_request_spec(line_of(seq!["DELETE_BUFFER"@, hex_text(buffer)])) == Ok::<RequestView, Seq<char>>(
            RequestView::DeleteBuffer { buffer },
        ),
{
    let fields = seq!["DELETE_BUFFER"@, hex_text(buffer)];
    reveal_strlit("DELETE_BUFFER");
    assert(tame("DELETE_BUFFER"@));
    lemma_tame_plain("DELETE_BUFFER"@);
    lemma_hex_text_round(buffer, "DELETE_BUFFER"@);
    lemma_tame_plain(hex_text(buffer));
    assert forall|i: int| 0 <= i < fields.len() implies plain_field(#[trigger] fields[i]) by {}
    lemma_line_fields(fields);
    lemma_groups_none(fields);
    reveal(decode_group_9_spec);
}

/// A client resize decodes back to itself.
#[verifier::rlimit(60)]
pub proof fn law_resize_round_trip(session: Seq<char>, cols: u16, rows: u16)
    requires
        plain_field(session),
    ensures
        decode_request_spec(line_of(seq!["RESIZE"@, session, decimal(cols as nat), decimal(rows as nat)])) == Ok::<RequestView, Seq<char>>(
            RequestView::Resize { session, cols, rows },
        ),
{
    let fields = seq!["RESIZE"@, session, decimal(cols as nat), decimal(rows as nat)];
    reveal_strlit("RESIZE");
    assert(tame("RESIZE"@));
    lemma_tame_plain("RESIZE"@);
    lemma_u16_round(cols, "RESIZE has invalid cols"@);
    lemma_tame_plain(decimal(cols as nat));
    lemma_u16_round(rows, "RESIZE has invalid rows"@);
    lemma_tame_plain(decimal(rows as nat));
    assert forall|i: int| 0 <= i < fields.len() implies plain_field(#[trigger] fields[i]) by {}
    lemma_line_fields(fields);
    lemma_groups_none(fields);
    reveal(decode_group_9_spec);
}

/// A directional pane resize decodes back to itself when the amount is positive.
#[verifier::rlimit(60)]
pub proof fn law_resize_pane_target_round_trip(target: TargetView, direction: PaneResizeDirection, amount: usize)
    requires
        amount > 0,
    ensures
        decode_request_spec(line_of(seq!["RESIZE_PANE_TARGET"@, target_text(target), resize_direction_text(direction), decimal(amount as nat)])) == Ok::<RequestView, Seq<char>>(
            RequestView::ResizePane { target, direction, amount },
        ),
{
    let fields = seq!["RESIZE_PANE_TARGET"@, target_text(target), resize_direction_text(direction), decimal(amount as nat)];
    reveal_strlit("RESIZE_PANE_TARGET");
    assert(tame("RESIZE_PANE_TARGET"@));
    lemma_tame_plain("RESIZE_PANE_TARGET"@);
    lemma_target_round(target, "RESIZE_PANE_TARGET"@);
    lemma_resize_direction_round(direction);
    lemma_tame_plain(resize_direction_text(direction));
    lemma_positive_round(amount, "RESIZE_PANE amount must be a positive integer"@);
    lemma_decimal_round(amount);
    lemma_tame_plain(decimal(amount as nat));
    assert forall|i: int| 0 <= i < fields.len() implies plain_field(#[trigger] fields[i]) by {}
    lemma_line_fields(fields);
    lemma_groups_none(fields);
    reveal(decode_group_10_spec);
}

/// A layout selection for a window decodes back to itself when the target names no pane.
#[verifier::rlimit(60)]
pub proof fn law_select_layout_target_round_trip(target: TargetView, preset: LayoutPreset)
    requires
        target.pane == PaneTarget::Active,
    ensures
        decode_request_spec(line_of(seq!["SELECT_LAYOUT_TARGET"@, target_text(target), layout_preset_text(preset)])) == Ok::<RequestView, Seq<char>>(
            RequestView::SelectLayout { session: target.session, window: target.window, preset },
        ),
{
    let fields = seq!["SELECT_LAYOUT_TARGET"@, target_text(target), layout_preset_text(preset)];
    reveal_strlit("SELECT_LAYOUT_TARGET");
    assert(tame("SELECT_LAYOUT_TARGET"@));
    lemma_tame_plain("SELECT_LAYOUT_TARGET"@);
    lemma_target_round(target, "SELECT_LAYOUT_TARGET"@);
    lemma_preset_round(preset);
    lemma_tame_plain(layout_preset_text(preset));
    assert forall|i: int| 0 <= i < fields.len() implies plain_field(#[trigger] fields[i]) by {}
    lemma_line_fields(fields);
    lemma_groups_none(fields);
    reveal(decode_group_10_spec);
}

/// Sending bytes to a target decodes back to itself.
#[verifier::rlimit(60)]
pub proof fn law_send_target_round_trip(target: TargetView, bytes: Seq<u8>)
    ensures
        decode_request_spec(line_of(seq!["SEND_TARGET"@, target_text(target), hex(bytes)])) == Ok::<RequestView, Seq<char>>(
            RequestView::Send { target, bytes },
        ),
{
    let fields = seq!["SEND_TARGET"@, target_text(target), hex(bytes)];
    reveal_strlit("SEND_TARGET");
    assert(tame("SEND_TARGET"@));
    lemma_tame_plain("SEND_TARGET"@);
    lemma_target_round(target, "SEND_TARGET"@);
    lemma_bytes_round(bytes);
    lemma_tame_plain(hex(bytes));
    assert forall|i: int| 0 <= i < fields.len() implies plain_field(#[trigger] fields[i]) by {}
    lemma_line_fields(fields);
    lemma_groups_none(fields);
    reveal(decode_group_11_spec);
}

/// A split of a session's active pane decodes back to itself.
#[verifier::rlimit(60)]
pub proof fn law_split_round_trip(session: Seq<char>, direction: SplitDirection, command: Seq<Seq<char>>)
    requires
        plain_field(session), forall|i: int| 0 <= i < command.len() ==> plain_argument(#[trigger] command[i]), !(command.len() == 1 && command[0].len() == 0), command.len() <= usize::MAX,
    ensures
        decode_request_spec(line_of(seq!["SPLIT"@, session, split_direction_text(direction), decimal(command.len()), command_text(command)])) == Ok::<RequestView, Seq<char>>(
            RequestView::Split { target: active_target(session), direction, command, cwd: None },
        ),
{
    let fields = seq!["SPLIT"@, session, split_direction_text(direction), decimal(command.len()), command_text(command)];
    reveal_strlit("SPLIT");
    assert(tame("SPLIT"@));
    lemma_tame_plain("SPLIT"@);
    lemma_split_direction_round(direction);
    lemma_tame_plain(split_direction_text(direction));
    lemma_command_round(command, "SPLIT"@);
    lemma_tame_plain(decimal(command.len()));
    lemma_command_round(command, "SPLIT"@);
    assert forall|i: int| 0 <= i < fields.len() implies plain_field(#[trigger] fields[i]) by {}
    lemma_line_fields(fields);
    lemma_groups_none(fields);
    reveal(decode_group_11_spec);
}

/// A split of a target decodes back to itself.
#[verifier::rlimit(60)]
pub proof fn law_split_target_round_trip(target: TargetView, direction: SplitDirection, command: Seq<Seq<char>>)
    requires
        forall|i: int| 0 <= i < command.len() ==> plain_argument(#[trigger] command[i]), !(command.len() == 1 && command[0].len() == 0), command.len() <= usize::MAX,
    ensures
        decode_request_spec(line_of(seq!["SPLIT_TARGET"@, target_text(target), split_direction_text(direction), decimal(command.len()), command_text(command)])) == Ok::<RequestView, Seq<char>>(
            RequestView::Split { target, direction, command, cwd: None },
        ),
{
    let fields = seq!["SPLIT_TARGET"@, target_text(target), split_direction_text(direction), decimal(command.len()), command_text(command)];
    reveal_strlit("SPLIT_TARGET");
    assert(tame("SPLIT_TARGET"@));
    lemma_tame_plain("SPLIT_TARGET"@);
    lemma_target_round(target, "SPLIT_TARGET"@);
    lemma_split_direction_round(direction);
    lemma_tame_plain(split_direction_text(direction));
    lemma_command_round(command, "SPLIT_TARGET"@);
    lemma_tame_plain(decimal(command.len()));
    lemma_command_round(command, "SPLIT_TARGET"@);
    assert forall|i: int| 0 <= i < fields.len() implies plain_field(#[trigger] fields[i]) by {}
    lemma_line_fields(fields);
    lemma_groups_none(fields);
    reveal(decode_group_11_spec);
}

/// A split of a target with a working directory decodes back to itself.
#[verifier::rlimit(60)]
pub proof fn law_split_target_in_cwd_round_trip(target: TargetView, direction: SplitDirection, command: Seq<Seq<char>>, cwd: Seq<u8>)
    requires
        forall|i: int| 0 <= i < command.len() ==> plain_argument(#[trigger] command[i]), !(command.len() == 1 && command[0].len() == 0), command.len() <= usize::MAX,
    ensures
        decode_request_spec(line_of(seq!["SPLIT_TARGET_CWD"@, target_text(target), split_direction_text(direction), hex(cwd), decimal(command.len()), command_text(command)])) == Ok::<RequestView, Seq<char>>(
            RequestView::Split { target, direction, command, cwd: Some(cwd) },
        ),
{
    let fields = seq!["SPLIT_TARGET_CWD"@, target_text(target), split_direction_text(direction), hex(cwd), decimal(command.len()), command_text(command)];
    reveal_strlit("SPLIT_TARGET_CWD");
    assert(tame("SPLIT_TARGET_CWD"@));
    lemma_tame_plain("SPLIT_TARGET_CWD"@);
    lemma_target_round(target, "SPLIT_TARGET_CWD"@);
    lemma_split_direction_round(direction);
    lemma_tame_plain(split_direction_text(direction));
    lemma_bytes_round(cwd);
    lemma_tame_plain(hex(cwd));
    lemma_command_round(command, "SPLIT_TARGET_CWD"@);
    lemma_tame_plain(decimal(command.len()));
    lemma_command_round(command, "SPLIT_TARGET_CWD"@);
    assert forall|i: int| 0 <= i < fields.len() implies plain_field(#[trigger] fields[i]) by {}
    lemma_line_fields(fields);
    lemma_groups_none(fields);
    reveal(decode_group_11_spec);
}

/// A pane listing for a window decodes back to itself.
#[verifier::rlimit(60)]
pub proof fn law_list_panes_target_round_trip(session: Seq<char>, window: WindowTargetView)
    requires
        plain_field(session),
    ensures
        decode_request_spec(line_of(seq!["LIST_PANES_TARGET"@, session, window_target_text(window)])) == Ok::<RequestView, Seq<char>>(
            RequestView::ListPanes { session, window, format: None },
        ),
{
    let fields = seq!["LIST_PANES_TARGET"@, session, window_target_text(window)];
    reveal_strlit("LIST_PANES_TARGET");
    assert(tame("LIST_PANES_TARGET"@));
    lemma_tame_plain("LIST_PANES_TARGET"@);
    lemma_structured_window_round(window, "LIST_PANES_TARGET"@);
    assert forall|i: int| 0 <= i < fields.len() implies plain_field(#[trigger] fields[i]) by {}
    lemma_line_fields(fields);
    lemma_groups_none(fields);
    reveal(decode_group_12_spec);
}

/// A formatted pane listing for a window decodes back to itself.
#[verifier::rlimit(60)]
pub proof fn law_list_panes_target_format_round_trip(session: Seq<char>, window: WindowTargetView, format: Seq<char>)
    requires
        plain_field(session),
    ensures
        decode_request_spec(line_of(seq!["LIST_PANES_TARGET_FORMAT"@, session, window_target_text(window), hex_text(format)])) == Ok::<RequestView, Seq<char>>(
            RequestView::ListPanes { session, window, format: Some(format) },
        ),
{
    let fields = seq!["LIST_PANES_TARGET_FORMAT"@, session, window_target_text(window), hex_text(format)];
    reveal_strlit("LIST_PANES_TARGET_FORMAT");
    assert(tame("LIST_PANES_TARGET_FORMAT"@));
    lemma_tame_plain("LIST_PANES_TARGET_FORMAT"@);
    lemma_structured_window_round(window, "LIST_PANES_TARGET_FORMAT"@);
    lemma_hex_text_round(format, "LIST_PANES_TARGET_FORMAT"@);
    lemma_tame_plain(hex_text(format));
    assert forall|i: int| 0 <= i < fields.len() implies plain_field(#[trigger] fields[i]) by {}
    lemma_line_fields(fields);
    lemma_groups_none(fields);
    reveal(decode_group_12_spec);
}

/// Selecting a pane by index decodes back to itself.
#[verifier::rlimit(60)]
pub proof fn law_select_pane_round_trip(session: Seq<char>, pane: usize)
    requires
        plain_field(session),
    ensures
        decode_request_spec(line_of(seq!["SELECT_PANE"@, session, decimal(pane as nat)])) == Ok::<RequestView, Seq<char>>(
            RequestView::SelectPane { session, window: WindowTargetView::Active, target: PaneSelectTarget::Index(pane) },
        ),
{
    let fields = seq!["SELECT_PANE"@, session, decimal(pane as nat)];
    reveal_strlit("SELECT_PANE");
    assert(tame("SELECT_PANE"@));
    lemma_tame_plain("SELECT_PANE"@);
    lemma_usize_or_round(pane, "SELECT_PANE has invalid pane index"@);
    lemma_decimal_round(pane);
    lemma_tame_plain(decimal(pane as nat));
    assert forall|i: int| 0 <= i < fields.len() implies plain_field(#[trigger] fields[i]) by {}
    lemma_line_fields(fields);
    lemma_groups_none(fields);
    reveal(decode_group_13_spec);
}

/// Selecting a pane by id decodes back to itself.
#[verifier::rlimit(60)]
pub proof fn law_select_pane_id_round_trip(session: Seq<char>, id: usize)
    requires
        plain_field(session),
    ensures
        decode_request_spec(line_of(seq!["SELECT_PANE_ID"@, session, decimal(id as nat)])) == Ok::<RequestView, Seq<char>>(
            RequestView::SelectPane { session, window: WindowTargetView::Active, target: PaneSelectTarget::Id(id) },
        ),
{
    let fields = seq!["SELECT_PANE_ID"@, session, decimal(id as nat)];
    reveal_strlit("SELECT_PANE_ID");
    assert(tame("SELECT_PANE_ID"@));
    lemma_tame_plain("SELECT_PANE_ID"@);
    lemma_usize_or_round(id, "SELECT_PANE_ID has invalid pane id"@);
    lemma_decimal_round(id);
    lemma_tame_plain(decimal(id as nat));
    assert forall|i: int| 0 <= i < fields.len() implies plain_field(#[trigger] fields[i]) by {}
    lemma_line_fields(fields);
    lemma_groups_none(fields);
    reveal(decode_group_13_spec);
}

/// Selecting a neighbouring pane decodes back to itself.
#[verifier::rlimit(60)]
pub proof fn law_select_pane_direction_round_trip(session: Seq<char>, direction: PaneDirection)
    requires
        plain_field(session),
    ensures
        decode_request_spec(line_of(seq!["SELECT_PANE_DIRECTION"@, session, pane_direction_text(direction)])) == Ok::<RequestView, Seq<char>>(
            RequestView::SelectPane { session, window: WindowTargetView::Active, target: PaneSelectTarget::Direction(direction) },
        ),
{
    let fields = seq!["SELECT_PANE_DIRECTION"@, session, pane_direction_text(direction)];
    reveal_strlit("SELECT_PANE_DIRECTION");
    assert(tame("SELECT_PANE_DIRECTION"@));
    lemma_tame_plain("SELECT_PANE_DIRECTION"@);
    lemma_pane_direction_round(direction, "SELECT_PANE_DIRECTION has invalid direction"@);
    lemma_tame_plain(pane_direction_text(direction));
    assert forall|i: int| 0 <= i < fields.len() implies plain_field(#[trigger] fields[i]) by {}
    lemma_line_fields(fields);
    lemma_groups_none(fields);
    reveal(decode_group_13_spec);
}

/// Selecting a pane of a window by index decodes back to itself.
#[verifier::rlimit(60)]
pub proof fn law_select_pane_in_window_round_trip(session: Seq<char>, window: WindowTargetView, pane: usize)
    requires
        plain_field(session),
    ensures
        decode_request_spec(line_of(seq!["SELECT_PANE_TARGET"@, session, window_target_text(window), decimal(pane as nat)])) == Ok::<RequestView, Seq<char>>(
            RequestView::SelectPane { session, window, target: PaneSelectTarget::Index(pane) },
        ),
{
    let fields = seq!["SELECT_PANE_TARGET"@, session, window_target_text(window), decimal(pane as nat)];
    reveal_strlit("SELECT_PANE_TARGET");
    assert(tame("SELECT_PANE_TARGET"@));
    lemma_tame_plain("SELECT_PANE_TARGET"@);
    lemma_structured_window_round(window, "SELECT_PANE_TARGET"@);
    lemma_usize_or_round(pane, "SELECT_PANE_TARGET has invalid pane index"@);
    lemma_decimal_round(pane);
    lemma_tame_plain(decimal(pane as nat));
    assert forall|i: int| 0 <= i < fields.len() implies plain_field(#[trigger] fields[i]) by {}
    lemma_line_fields(fields);
    lemma_groups_none(fields);
    reveal(decode_group_13_spec);
}

/// Selecting a pane of a window by id decodes back to itself.
#[verifier::rlimit(60)]
pub proof fn law_select_pane_id_in_window_round_trip(session: Seq<char>, window: WindowTargetView, id: usize)
    requires
        plain_field(session),
    ensures
        decode_request_spec(line_of(seq!["SELECT_PANE_TARGET_ID"@, session, window_target_text(window), decimal(id as nat)])) == Ok::<RequestView, Seq<char>>(
            RequestView::SelectPane { session, window, target: PaneSelectTarget::Id(id) },
        ),
{
    let fields = seq!["SELECT_PANE_TARGET_ID"@, session, window_target_text(window), decimal(id as nat)];
    reveal_strlit("SELECT_PANE_TARGET_ID");
    assert(tame("SELECT_PANE_TARGET_ID"@));
    lemma_tame_plain("SELECT_PANE_TARGET_ID"@);
    lemma_structured_window_round(window, "SELECT_PANE_TARGET_ID"@);
    lemma_usize_or_round(id, "SELECT_PANE_TARGET_ID has invalid pane id"@);
    lemma_decimal_round(id);
    lemma_tame_plain(decimal(id as nat));
    assert forall|i: int| 0 <= i < fields.len() implies plain_field(#[trigger] fields[i]) by {}
    lemma_line_fields(fields);
    lemma_groups_none(fields);
    reveal(decode_group_14_spec);
}

/// Selecting a neighbouring pane in a window decodes back to itself.
#[verifier::rlimit(60)]
pub proof fn law_select_pane_direction_in_window_round_trip(session: Seq<char>, window: WindowTargetView, direction: PaneDirection)
    requires
        plain_field(session),
    ensures
        decode_request_spec(line_of(seq!["SELECT_PANE_TARGET_DIRECTION"@, session, window_target_text(window), pane_direction_text(direction)])) == Ok::<RequestView, Seq<char>>(
            RequestView::SelectPane { session, window, target: PaneSelectTarget::Direction(direction) },
        ),
{
    let fields = seq!["SELECT_PANE_TARGET_DIRECTION"@, session, window_target_text(window), pane_direction_text(direction)];
    reveal_strlit("SELECT_PANE_TARGET_DIRECTION");
    assert(tame("SELECT_PANE_TARGET_DIRECTION"@));
    lemma_tame_plain("SELECT_PANE_TARGET_DIRECTION"@);
    lemma_structured_window_round(window, "SELECT_PANE_TARGET_DIRECTION"@);
    lemma_pane_direction_round(direction, "SELECT_PANE_TARGET_DIRECTION has invalid direction"@);
    lemma_tame_plain(pane_direction_text(direction));
    assert forall|i: int| 0 <= i < fields.len() implies plain_field(#[trigger] fields[i]) by {}
    lemma_line_fields(fields);
    lemma_groups_none(fields);
    reveal(decode_group_14_spec);
}

/// A `KILL_PANE_TARGET` request decodes back to itself.
#[verifier::rlimit(60)]
pub proof fn law_kill_pane_target_round_trip(target: TargetView)
    ensures
        decode_request_spec(line_of(seq!["KILL_PANE_TARGET"@, target_text(target)])) == Ok::<RequestView, Seq<char>>(
            RequestView::KillPane { target },
        ),
{
    let fields = seq!["KILL_PANE_TARGET"@, target_text(target)];
    reveal_strlit("KILL_PANE_TARGET");
    assert(tame("KILL_PANE_TARGET"@));
    lemma_tame_plain("KILL_PANE_TARGET"@);
    lemma_target_round(target, "KILL_PANE_TARGET"@);
    assert forall|i: int| 0 <= i < fields.len() implies plain_field(#[trigger] fields[i]) by {}
    lemma_line_fields(fields);
    lemma_groups_none(fields);
    reveal(decode_group_14_spec);
}

/// A `BREAK_PANE` request decodes back to itself.
#[verifier::rlimit(60)]
pub proof fn law_break_pane_round_trip(target: TargetView)
    ensures
        decode_request_spec(line_of(seq!["BREAK_PANE"@, target_text(target)])) == Ok::<RequestView, Seq<char>>(
            RequestView::BreakPane { target },
        ),
{
    let fields = seq!["BREAK_PANE"@, target_text(target)];
    reveal_strlit("BREAK_PANE");
    assert(tame("BREAK_PANE"@));
    lemma_tame_plain("BREAK_PANE"@);
    lemma_target_round(target, "BREAK_PANE"@);
    assert forall|i: int| 0 <= i < fields.len() implies plain_field(#[trigger] fields[i]) by {}
    lemma_line_fields(fields);
    lemma_groups_none(fields);
    reveal(decode_group_15_spec);
}

/// A `ZOOM_PANE_TARGET` request decodes back to itself.
#[verifier::rlimit(60)]
pub proof fn law_zoom_pane_target_round_trip(target: TargetView)
    ensures
        decode_request_spec(line_of(seq!["ZOOM_PANE_TARGET"@, target_text(target)])) == Ok::<RequestView, Seq<char>>(
            RequestView::ZoomPane { target },
        ),
{
    let fields = seq!["ZOOM_PANE_TARGET"@, target_text(target)];
    reveal_strlit("ZOOM_PANE_TARGET");
    assert(tame("ZOOM_PANE_TARGET"@));
    lemma_tame_plain("ZOOM_PANE_TARGET"@);
    lemma_target_round(target, "ZOOM_PANE_TARGET"@);
    assert forall|i: int| 0 <= i < fields.len() implies plain_field(#[trigger] fields[i]) by {}
    lemma_line_fields(fields);
    lemma_groups_none(fields);
    reveal(decode_group_20_spec);
}

/// A pane swap decodes back to itself.
#[verifier::rlimit(60)]
pub proof fn law_swap_pane_round_trip(source: TargetView, destination: TargetView)
    ensures
        decode_request_spec(line_of(seq!["SWAP_PANE"@, target_text(source), target_text(destination)])) == Ok::<RequestView, Seq<char>>(
            RequestView::SwapPane { source, destination },
        ),
{
    let fields = seq!["SWAP_PANE"@, target_text(source), target_text(destination)];
    reveal_strlit("SWAP_PANE");
    assert(tame("SWAP_PANE"@));
    lemma_tame_plain("SWAP_PANE"@);
    lemma_target_round(source, "SWAP_PANE"@);
    lemma_target_round(destination, "SWAP_PANE"@);
    assert forall|i: int| 0 <= i < fields.len() implies plain_field(#[trigger] fields[i]) by {}
    lemma_line_fields(fields);
    lemma_groups_none(fields);
    reveal(decode_group_15_spec);
}

/// A pane move decodes back to itself.
#[verifier::rlimit(60)]
pub proof fn law_move_pane_round_trip(source: TargetView, destination: TargetView, direction: SplitDirection)
    ensures
        decode_request_spec(line_of(seq!["MOVE_PANE"@, target_text(source), target_text(destination), split_direction_text(direction)])) == Ok::<RequestView, Seq<char>>(
            RequestView::MovePane { source, destination, direction },
        ),
{
    let fields = seq!["MOVE_PANE"@, target_text(source), target_text(destination), split_direction_text(direction)];
    reveal_strlit("MOVE_PANE");
    assert(tame("MOVE_PANE"@));
    lemma_tame_plain("MOVE_PANE"@);
    lemma_target_round(source, "MOVE_PANE"@);
    lemma_target_round(destination, "MOVE_PANE"@);
    lemma_split_direction_round(direction);
    lemma_tame_plain(split_direction_text(direction));
    assert forall|i: int| 0 <= i < fields.len() implies plain_field(#[trigger] fields[i]) by {}
    lemma_line_fields(fields);
    lemma_groups_none(fields);
    reveal(decode_group_15_spec);
}

/// A pane join decodes back to itself.
#[verifier::rlimit(60)]
pub proof fn law_join_pane_round_trip(source: TargetView, destination: TargetView, direction: SplitDirection)
    ensures
        decode_request_spec(line_of(seq!["JOIN_PANE"@, target_text(source), target_text(destination), split_direction_text(direction)])) == Ok::<RequestView, Seq<char>>(
            RequestView::JoinPane { source, destination, direction },
        ),
{
    let fields = seq!["JOIN_PANE"@, target_text(source), target_text(destination), split_direction_text(direction)];
    reveal_strlit("JOIN_PANE");
    assert(tame("JOIN_PANE"@));
    lemma_tame_plain("JOIN_PANE"@);
    lemma_target_round(source, "JOIN_PANE"@);
    lemma_target_round(destination, "JOIN_PANE"@);
    lemma_split_direction_round(direction);
    lemma_tame_plain(split_direction_text(direction));
    assert forall|i: int| 0 <= i < fields.len() implies plain_field(#[trigger] fields[i]) by {}
    lemma_line_fields(fields);
    lemma_groups_none(fields);
    reveal(decode_group_15_spec);
}

/// A pane respawn decodes back to itself.
#[verifier::rlimit(60)]
pub proof fn law_respawn_pane_target_round_trip(target: TargetView, force: bool, command: Seq<Seq<char>>)
    requires
        forall|i: int| 0 <= i < command.len() ==> plain_argument(#[trigger] command[i]), !(command.len() == 1 && command[0].len() == 0), command.len() <= usize::MAX,
    ensures
        decode_request_spec(line_of(seq!["RESPAWN_PANE_TARGET"@, target_text(target), (if force { "1"@ } else { "0"@ }), decimal(command.len()), command_text(command)])) == Ok::<RequestView, Seq<char>>(
            RequestView::RespawnPane { target, force, command, cwd: None },
        ),
{
    let fields = seq!["RESPAWN_PANE_TARGET"@, target_text(target), (if force { "1"@ } else { "0"@ }), decimal(command.len()), command_text(command)];
    reveal_strlit("RESPAWN_PANE_TARGET");
    assert(tame("RESPAWN_PANE_TARGET"@));
    lemma_tame_plain("RESPAWN_PANE_TARGET"@);
    lemma_target_round(target, "RESPAWN_PANE_TARGET"@);
    lemma_force_round(force, "RESPAWN_PANE_TARGET"@);
    lemma_tame_plain(if force { "1"@ } else { "0"@ });
    lemma_command_round(command, "RESPAWN_PANE_TARGET"@);
    lemma_tame_plain(decimal(command.len()));
    lemma_command_round(command, "RESPAWN_PANE_TARGET"@);
    assert forall|i: int| 0 <= i < fields.len() implies plain_field(#[trigger] fields[i]) by {}
    lemma_line_fields(fields);
    lemma_groups_none(fields);
    reveal(decode_group_16_spec);
}

/// A pane respawn with a working directory decodes back to itself.
#[verifier::rlimit(60)]
pub proof fn law_respawn_pane_target_in_cwd_round_trip(target: TargetView, force: bool, command: Seq<Seq<char>>, cwd: Seq<u8>)
    requires
        forall|i: int| 0 <= i < command.len() ==> plain_argument(#[trigger] command[i]), !(command.len() == 1 && command[0].len() == 0), command.len() <= usize::MAX,
    ensures
        decode_request_spec(line_of(seq!["RESPAWN_PANE_TARGET_CWD"@, target_text(target), (if force { "1"@ } else { "0"@ }), hex(cwd), decimal(command.len()), command_text(command)])) == Ok::<RequestView, Seq<char>>(
            RequestView::RespawnPane { target, force, command, cwd: Some(cwd) },
        ),
{
    let fields = seq!["RESPAWN_PANE_TARGET_CWD"@, target_text(target), (if force { "1"@ } else { "0"@ }), hex(cwd), decimal(command.len()), command_text(command)];
    reveal_strlit("RESPAWN_PANE_TARGET_CWD");
    assert(tame("RESPAWN_PANE_TARGET_CWD"@));
    lemma_tame_plain("RESPAWN_PANE_TARGET_CWD"@);
    lemma_target_round(target, "RESPAWN_PANE_TARGET_CWD"@);
    lemma_force_round(force, "RESPAWN_PANE_TARGET_CWD"@);
    lemma_tame_plain(if force { "1"@ } else { "0"@ });
    lemma_bytes_round(cwd);
    lemma_tame_plain(hex(cwd));
    lemma_command_round(command, "RESPAWN_PANE_TARGET_CWD"@);
    lemma_tame_plain(decimal(command.len()));
    lemma_command_round(command, "RESPAWN_PANE_TARGET_CWD"@);
    assert forall|i: int| 0 <= i < fields.len() implies plain_field(#[trigger] fields[i]) by {}
    lemma_line_fields(fields);
    lemma_groups_none(fields);
    reveal(decode_group_16_spec);
}

/// A new-window request decodes back to itself.
#[verifier::rlimit(60)]
pub proof fn law_new_window_round_trip(session: Seq<char>, command: Seq<Seq<char>>)
    requires
        plain_field(session), forall|i: int| 0 <= i < command.len() ==> plain_argument(#[trigger] command[i]), !(command.len() == 1 && command[0].len() == 0), command.len() <= usize::MAX,
    ensures
        decode_request_spec(line_of(seq!["NEW_WINDOW"@, session, decimal(command.len()), command_text(command)])) == Ok::<RequestView, Seq<char>>(
            RequestView::NewWindow { session, command, cwd: None },
        ),
{
    let fields = seq!["NEW_WINDOW"@, session, decimal(command.len()), command_text(command)];
    reveal_strlit("NEW_WINDOW");
    assert(tame("NEW_WINDOW"@));
    lemma_tame_plain("NEW_WINDOW"@);
    lemma_command_round(command, "NEW_WINDOW"@);
    lemma_tame_plain(decimal(command.len()));
    lemma_command_round(command, "NEW_WINDOW"@);
    assert forall|i: int| 0 <= i < fields.len() implies plain_field(#[trigger] fields[i]) by {}
    lemma_line_fields(fields);
    lemma_groups_none(fields);
    reveal(decode_group_16_spec);
}

/// A new-window request with a working directory decodes back to itself.
#[verifier::rlimit(60)]
pub proof fn law_new_window_in_cwd_round_trip(session: Seq<char>, command: Seq<Seq<char>>, cwd: Seq<u8>)
    requires
        plain_field(session), forall|i: int| 0 <= i < command.len() ==> plain_argument(#[trigger] command[i]), !(command.len() == 1 && command[0].len() == 0), command.len() <= usize::MAX,
    ensures
        decode_request_spec(line_of(seq!["NEW_WINDOW_CWD"@, session, hex(cwd), decimal(command.len()), command_text(command)])) == Ok::<RequestView, Seq<char>>(
            RequestView::NewWindow { session, command, cwd: Some(cwd) },
        ),
{
    let fields = seq!["NEW_WINDOW_CWD"@, session, hex(cwd), decimal(command.len()), command_text(command)];
    reveal_strlit("NEW_WINDOW_CWD");
    assert(tame("NEW_WINDOW_CWD"@));
    lemma_tame_plain("NEW_WINDOW_CWD"@);
    lemma_bytes_round(cwd);
    lemma_tame_plain(hex(cwd));
    lemma_command_round(command, "NEW_WINDOW_CWD"@);
    lemma_tame_plain(decimal(command.len()));
    lemma_command_round(command, "NEW_WINDOW_CWD"@);
    assert forall|i: int| 0 <= i < fields.len() implies plain_field(#[trigger] fields[i]) by {}
    lemma_line_fields(fields);
    lemma_groups_none(fields);
    reveal(decode_group_17_spec);
}

/// A window listing decodes back to itself.
#[verifier::rlimit(60)]
pub proof fn law_list_windows_round_trip(session: Seq<char>)
    requires
        plain_field(session),
    ensures
        decode_request_spec(line_of(seq!["LIST_WINDOWS"@, session])) == Ok::<RequestView, Seq<char>>(
            RequestView::ListWindows { session, format: None },
        ),
{
    let fields = seq!["LIST_WINDOWS"@, session];
    reveal_strlit("LIST_WINDOWS");
    assert(tame("LIST_WINDOWS"@));
    lemma_tame_plain("LIST_WINDOWS"@);
    assert forall|i: int| 0 <= i < fields.len() implies plain_field(#[trigger] fields[i]) by {}
    lemma_line_fields(fields);
    lemma_groups_none(fields);
    reveal(decode_group_17_spec);
}

/// A formatted window listing decodes back to itself.
#[verifier::rlimit(60)]
pub proof fn law_list_windows_format_round_trip(session: Seq<char>, format: Seq<char>)
    requires
        plain_field(session),
    ensures
        decode_request_spec(line_of(seq!["LIST_WINDOWS_FORMAT"@, session, hex_text(format)])) == Ok::<RequestView, Seq<char>>(
            RequestView::ListWindows { session, format: Some(format) },
        ),
{
    let fields = seq!["LIST_WINDOWS_FORMAT"@, session, hex_text(format)];
    reveal_strlit("LIST_WINDOWS_FORMAT");
    assert(tame("LIST_WINDOWS_FORMAT"@));
    lemma_tame_plain("LIST_WINDOWS_FORMAT"@);
    lemma_hex_text_round(format, "LIST_WINDOWS_FORMAT"@);
    lemma_tame_plain(hex_text(format));
    assert forall|i: int| 0 <= i < fields.len() implies plain_field(#[trigger] fields[i]) by {}
    lemma_line_fields(fields);
    lemma_groups_none(fields);
    reveal(decode_group_17_spec);
}

/// Selecting a window by index decodes back to itself.
#[verifier::rlimit(60)]
pub proof fn law_select_window_round_trip(session: Seq<char>, window: usize)
    requires
        plain_field(session),
    ensures
        decode_request_spec(line_of(seq!["SELECT_WINDOW"@, session, decimal(window as nat)])) == Ok::<RequestView, Seq<char>>(
            RequestView::SelectWindow { session, target: WindowTargetView::Index(window) },
        ),
{
    let fields = seq!["SELECT_WINDOW"@, session, decimal(window as nat)];
    reveal_strlit("SELECT_WINDOW");
    assert(tame("SELECT_WINDOW"@));
    lemma_tame_plain("SELECT_WINDOW"@);
    lemma_usize_or_round(window, "SELECT_WINDOW has invalid window index"@);
    lemma_decimal_round(window);
    lemma_tame_plain(decimal(window as nat));
    assert forall|i: int| 0 <= i < fields.len() implies plain_field(#[trigger] fields[i]) by {}
    lemma_line_fields(fields);
    lemma_groups_none(fields);
    reveal(decode_group_17_spec);
}

/// Selecting a window by id decodes back to itself.
#[verifier::rlimit(60)]
pub proof fn law_select_window_id_round_trip(session: Seq<char>, id: usize)
    requires
        plain_field(session),
    ensures
        decode_request_spec(line_of(seq!["SELECT_WINDOW_ID"@, session, decimal(id as nat)])) == Ok::<RequestView, Seq<char>>(
            RequestView::SelectWindow { session, target: WindowTargetView::Id(id) },
        ),
{
    let fields = seq!["SELECT_WINDOW_ID"@, session, decimal(id as nat)];
    reveal_strlit("SELECT_WINDOW_ID");
    assert(tame("SELECT_WINDOW_ID"@));
    lemma_tame_plain("SELECT_WINDOW_ID"@);
    lemma_usize_or_round(id, "SELECT_WINDOW_ID has invalid window id"@);
    lemma_decimal_round(id);
    lemma_tame_plain(decimal(id as nat));
    assert forall|i: int| 0 <= i < fields.len() implies plain_field(#[trigger] fields[i]) by {}
    lemma_line_fields(fields);
    lemma_groups_none(fields);
    reveal(decode_group_18_spec);
}

/// Selecting a window by name decodes back to itself.
#[verifier::rlimit(60)]
pub proof fn law_select_window_name_round_trip(session: Seq<char>, name: Seq<char>)
    requires
        plain_field(session),
    ensures
        decode_request_spec(line_of(seq!["SELECT_WINDOW_NAME"@, session, hex_text(name)])) == Ok::<RequestView, Seq<char>>(
            RequestView::SelectWindow { session, target: WindowTargetView::Name(name) },
        ),
{
    let fields = seq!["SELECT_WINDOW_NAME"@, session, hex_text(name)];
    reveal_strlit("SELECT_WINDOW_NAME");
    assert(tame("SELECT_WINDOW_NAME"@));
    lemma_tame_plain("SELECT_WINDOW_NAME"@);
    lemma_hex_text_round(name, "SELECT_WINDOW_NAME"@);
    lemma_tame_plain(hex_text(name));
    assert forall|i: int| 0 <= i < fields.len() implies plain_field(#[trigger] fields[i]) by {}
    lemma_line_fields(fields);
    lemma_groups_none(fields);
    reveal(decode_group_18_spec);
}

/// Selecting the active window decodes back to itself.
#[verifier::rlimit(60)]
pub proof fn law_select_window_active_round_trip(session: Seq<char>)
    requires
        plain_field(session),
    ensures
        decode_request_spec(line_of(seq!["SELECT_WINDOW_ACTIVE"@, session])) == Ok::<RequestView, Seq<char>>(
            RequestView::SelectWindow { session, target: WindowTargetView::Active },
        ),
{
    let fields = seq!["SELECT_WINDOW_ACTIVE"@, session];
    reveal_strlit("SELECT_WINDOW_ACTIVE");
    assert(tame("SELECT_WINDOW_ACTIVE"@));
    lemma_tame_plain("SELECT_WINDOW_ACTIVE"@);
    assert forall|i: int| 0 <= i < fields.len() implies plain_field(#[trigger] fields[i]) by {}
    lemma_line_fields(fields);
    lemma_groups_none(fields);
    reveal(decode_group_18_spec);
}

/// Renaming a window by id decodes back to itself.
#[verifier::rlimit(60)]
pub proof fn law_rename_window_id_round_trip(session: Seq<char>, id: usize, name: Seq<char>)
    requires
        plain_field(session),
    ensures
        decode_request_spec(line_of(seq!["RENAME_WINDOW_ID"@, session, decimal(id as nat), hex_text(name)])) == Ok::<RequestView, Seq<char>>(
            RequestView::RenameWindow { session, target: WindowTargetView::Id(id), name },
        ),
{
    let fields = seq!["RENAME_WINDOW_ID"@, session, decimal(id as nat), hex_text(name)];
    reveal_strlit("RENAME_WINDOW_ID");
    assert(tame("RENAME_WINDOW_ID"@));
    lemma_tame_plain("RENAME_WINDOW_ID"@);
    lemma_usize_or_round(id, "RENAME_WINDOW_ID has invalid window id"@);
    lemma_decimal_round(id);
    lemma_tame_plain(decimal(id as nat));
    lemma_hex_text_round(name, "RENAME_WINDOW_ID"@);
    lemma_tame_plain(hex_text(name));
    assert forall|i: int| 0 <= i < fields.len() implies plain_field(#[trigger] fields[i]) by {}
    lemma_line_fields(fields);
    lemma_groups_none(fields);
    reveal(decode_group_19_spec);
}

/// Renaming a window found by name decodes back to itself.
#[verifier::rlimit(60)]
pub proof fn law_rename_window_name_round_trip(session: Seq<char>, old_name: Seq<char>, name: Seq<char>)
    requires
        plain_field(session),
    ensures
        decode_request_spec(line_of(seq!["RENAME_WINDOW_NAME"@, session, hex_text(old_name), hex_text(name)])) == Ok::<RequestView, Seq<char>>(
            RequestView::RenameWindow { session, target: WindowTargetView::Name(old_name), name },
        ),
{
    let fields = seq!["RENAME_WINDOW_NAME"@, session, hex_text(old_name), hex_text(name)];
    reveal_strlit("RENAME_WINDOW_NAME");
    assert(tame("RENAME_WINDOW_NAME"@));
    lemma_tame_plain("RENAME_WINDOW_NAME"@);
    lemma_hex_text_round(old_name, "RENAME_WINDOW_NAME"@);
    lemma_tame_plain(hex_text(old_name));
    lemma_hex_text_round(name, "RENAME_WINDOW_NAME"@);
    lemma_tame_plain(hex_text(name));
    assert forall|i: int| 0 <= i < fields.len() implies plain_field(#[trigger] fields[i]) by {}
    lemma_line_fields(fields);
    lemma_groups_none(fields);
    reveal(decode_group_19_spec);
}

/// `active`, or a window index in decimal, reads back as that window.
proof fn lemma_active_or_index_round(w: WindowTargetView, message: Seq<char>)
    requires
        w is Active || w is Index,
    ensures
        dec_window_target(
            match w {
                WindowTargetView::Index(i) => decimal(i as nat),
                _ => "active"@,
            },
            message,
        ) == Ok::<WindowTargetView, Seq<char>>(w),
        tame(match w {
            WindowTargetView::Index(i) => decimal(i as nat),
            _ => "active"@,
        }),
{
    reveal_strlit("active");
    match w {
        WindowTargetView::Index(n) => {
            lemma_decimal_round(n);
            lemma_decimal_digits(n as nat);
            assert(decimal(n as nat) != "active"@) by {
                assert(is_digit(decimal(n as nat)[0]));
            }
        },
        _ => {
            assert(tame("active"@));
        },
    }
}

/// Renaming the active window or a window by index decodes back to itself.
#[verifier::rlimit(60)]
proof fn lemma_rename_window_plain_round(session: Seq<char>, target: WindowTargetView, name: Seq<char>)
    requires
        plain_field(session),
        target is Active || target is Index,
    ensures
        decode_request_spec(rename_window_line(session, target, name)) == Ok::<RequestView, Seq<char>>(
            RequestView::RenameWindow { session, target, name },
        ),
{
    let w = match target {
        WindowTargetView::Index(i) => decimal(i as nat),
        _ => "active"@,
    };
    let fields = seq!["RENAME_WINDOW"@, session, w, hex_text(name)];
    assert(rename_window_line(session, target, name) == line_of(fields));
    reveal_strlit("RENAME_WINDOW");
    assert(tame("RENAME_WINDOW"@));
    lemma_tame_plain("RENAME_WINDOW"@);
    lemma_active_or_index_round(target, "RENAME_WINDOW has invalid window index"@);
    lemma_tame_plain(w);
    lemma_hex_text_round(name, "RENAME_WINDOW"@);
    lemma_tame_plain(hex_text(name));
    assert forall|i: int| 0 <= i < fields.len() implies plain_field(#[trigger] fields[i]) by {}
    lemma_line_fields(fields);
    lemma_groups_none(fields);
    reveal(decode_group_18_spec);
}

/// Renaming a window decodes back to itself, whichever way the window is
/// named: the active one, by index, by id or by name.
pub proof fn law_rename_window_round_trip(session: Seq<char>, target: WindowTargetView, name: Seq<char>)
    requires
        plain_field(session),
    ensures
        decode_request_spec(rename_window_line(session, target, name)) == Ok::<RequestView, Seq<char>>(
            RequestView::RenameWindow { session, target, name },
        ),
{
    match target {
        WindowTargetView::Id(id) => law_rename_window_id_round_trip(session, id, name),
        WindowTargetView::Name(old_name) => law_rename_window_name_round_trip(session, old_name, name),
        _ => lemma_rename_window_plain_round(session, target, name),
    }
}

/// Killing a window decodes back to itself.
#[verifier::rlimit(60)]
pub proof fn law_kill_window_target_round_trip(session: Seq<char>, target: WindowTargetView)
    requires
        plain_field(session),
    ensures
        decode_request_spec(line_of(seq!["KILL_WINDOW_TARGET"@, session, window_target_text(target)])) == Ok::<RequestView, Seq<char>>(
            RequestView::KillWindow { session, target },
        ),
{
    let fields = seq!["KILL_WINDOW_TARGET"@, session, window_target_text(target)];
    reveal_strlit("KILL_WINDOW_TARGET");
    assert(tame("KILL_WINDOW_TARGET"@));
    lemma_tame_plain("KILL_WINDOW_TARGET"@);
    lemma_structured_window_round(target, "KILL_WINDOW_TARGET"@);
    assert forall|i: int| 0 <= i < fields.len() implies plain_field(#[trigger] fields[i]) by {}
    lemma_line_fields(fields);
    lemma_groups_none(fields);
    reveal(decode_group_20_spec);
}

/// A status-line request decodes back to itself.
#[verifier::rlimit(60)]
pub proof fn law_status_line_round_trip(session: Seq<char>)
    requires
        plain_field(session),
    ensures
        decode_request_spec(line_of(seq!["STATUS_LINE"@, session])) == Ok::<RequestView, Seq<char>>(
            RequestView::StatusLine { session, format: None },
        ),
{
    let fields = seq!["STATUS_LINE"@, session];
    reveal_strlit("STATUS_LINE");
    assert(tame("STATUS_LINE"@));
    lemma_tame_plain("STATUS_LINE"@);
    assert forall|i: int| 0 <= i < fields.len() implies plain_field(#[trigger] fields[i]) by {}
    lemma_line_fields(fields);
    lemma_groups_none(fields);
    reveal(decode_group_21_spec);
}

/// A formatted status-line request decodes back to itself.
#[verifier::rlimit(60)]
pub proof fn law_status_line_format_round_trip(session: Seq<char>, format: Seq<char>)
    requires
        plain_field(session),
    ensures
        decode_request_spec(line_of(seq!["STATUS_LINE_FORMAT"@, session, hex_text(format)])) == Ok::<RequestView, Seq<char>>(
            RequestView::StatusLine { session, format: Some(format) },
        ),
{
    let fields = seq!["STATUS_LINE_FORMAT"@, session, hex_text(format)];
    reveal_strlit("STATUS_LINE_FORMAT");
    assert(tame("STATUS_LINE_FORMAT"@));
    lemma_tame_plain("STATUS_LINE_FORMAT"@);
    lemma_hex_text_round(format, "STATUS_LINE_FORMAT"@);
    lemma_tame_plain(hex_text(format));
    assert forall|i: int| 0 <= i < fields.len() implies plain_field(#[trigger] fields[i]) by {}
    lemma_line_fields(fields);
    lemma_groups_none(fields);
    reveal(decode_group_21_spec);
}

/// A display-message request decodes back to itself.
#[verifier::rlimit(60)]
pub proof fn law_display_message_round_trip(session: Seq<char>, format: Seq<char>)
    requires
        plain_field(session),
    ensures
        decode_request_spec(line_of(seq!["DISPLAY_MESSAGE"@, session, hex_text(format)])) == Ok::<RequestView, Seq<char>>(
            RequestView::DisplayMessage { session, format },
        ),
{
    let fields = seq!["DISPLAY_MESSAGE"@, session, hex_text(format)];
    reveal_strlit("DISPLAY_MESSAGE");
    assert(tame("DISPLAY_MESSAGE"@));
    lemma_tame_plain("DISPLAY_MESSAGE"@);
    lemma_hex_text_round(format, "DISPLAY_MESSAGE"@);
    lemma_tame_plain(hex_text(format));
    assert forall|i: int| 0 <= i < fields.len() implies plain_field(#[trigger] fields[i]) by {}
    lemma_line_fields(fields);
    lemma_groups_none(fields);
    reveal(decode_group_21_spec);
}

/// A key listing decodes back to itself unless the format given is empty.
#[verifier::rlimit(60)]
pub proof fn law_list_keys_round_trip(format: Option<Seq<char>>)
    requires
        format != Some(Seq::<char>::empty()),
    ensures
        decode_request_spec(line_of(seq!["LIST_KEYS"@, opt_text(format)])) == Ok::<RequestView, Seq<char>>(
            RequestView::ListKeys { format },
        ),
{
    let fields = seq!["LIST_KEYS"@, opt_text(format)];
    reveal_strlit("LIST_KEYS");
    assert(tame("LIST_KEYS"@));
    lemma_tame_plain("LIST_KEYS"@);
    lemma_opt_text_round(format, "LIST_KEYS"@);
    lemma_tame_plain(opt_text(format));
    assert forall|i: int| 0 <= i < fields.len() implies plain_field(#[trigger] fields[i]) by {}
    lemma_line_fields(fields);
    lemma_groups_none(fields);
    reveal(decode_group_21_spec);
}

/// A key binding decodes back to itself.
#[verifier::rlimit(60)]
pub proof fn law_bind_key_round_trip(key: Seq<char>, command: Seq<char>)
    ensures
        decode_request_spec(line_of(seq!["BIND_KEY"@, hex_text(key), hex_text(command)])) == Ok::<RequestView, Seq<char>>(
            RequestView::BindKey { key, command },
        ),
{
    let fields = seq!["BIND_KEY"@, hex_text(key), hex_text(command)];
    reveal_strlit("BIND_KEY");
    assert(tame("BIND_KEY"@));
    lemma_tame_plain("BIND_KEY"@);
    lemma_hex_text_round(key, "BIND_KEY"@);
    lemma_tame_plain(hex_text(key));
    lemma_hex_text_round(command, "BIND_KEY"@);
    lemma_tame_plain(hex_text(command));
    assert forall|i: int| 0 <= i < fields.len() implies plain_field(#[trigger] fields[i]) by {}
    lemma_line_fields(fields);
    lemma_groups_none(fields);
    reveal(decode_group_22_spec);
}

/// A key unbinding decodes back to itself.
#[verifier::rlimit(60)]
pub proof fn law_unbind_key_round_trip(key: Seq<char>)
    ensures
        decode_request_spec(line_of(seq!["UNBIND_KEY"@, hex_text(key)])) == Ok::<RequestView, Seq<char>>(
            RequestView::UnbindKey { key },
        ),
{
    let fields = seq!["UNBIND_KEY"@, hex_text(key)];
    reveal_strlit("UNBIND_KEY");
    assert(tame("UNBIND_KEY"@));
    lemma_tame_plain("UNBIND_KEY"@);
    lemma_hex_text_round(key, "UNBIND_KEY"@);
    lemma_tame_plain(hex_text(key));
    assert forall|i: int| 0 <= i < fields.len() implies plain_field(#[trigger] fields[i]) by {}
    lemma_line_fields(fields);
    lemma_groups_none(fields);
    reveal(decode_group_22_spec);
}

/// An option listing decodes back to itself unless the format given is empty.
#[verifier::rlimit(60)]
pub proof fn law_show_options_round_trip(format: Option<Seq<char>>)
    requires
        format != Some(Seq::<char>::empty()),
    ensures
        decode_request_spec(line_of(seq!["SHOW_OPTIONS"@, opt_text(format)])) == Ok::<RequestView, Seq<char>>(
            RequestView::ShowOptions { format },
        ),
{
    let fields = seq!["SHOW_OPTIONS"@, opt_text(format)];
    reveal_strlit("SHOW_OPTIONS");
    assert(tame("SHOW_OPTIONS"@));
    lemma_tame_plain("SHOW_OPTIONS"@);
    lemma_opt_text_round(format, "SHOW_OPTIONS"@);
    lemma_tame_plain(opt_text(format));
    assert forall|i: int| 0 <= i < fields.len() implies plain_field(#[trigger] fields[i]) by {}
    lemma_line_fields(fields);
    lemma_groups_none(fields);
    reveal(decode_group_22_spec);
}

/// Setting an option decodes back to itself.
#[verifier::rlimit(60)]
pub proof fn law_set_option_round_trip(name: Seq<char>, value: Seq<char>)
    ensures
        decode_request_spec(line_of(seq!["SET_OPTION"@, hex_text(name), hex_text(value)])) == Ok::<RequestView, Seq<char>>(
            RequestView::SetOption { name, value },
        ),
{
    let fields = seq!["SET_OPTION"@, hex_text(name), hex_text(value)];
    reveal_strlit("SET_OPTION");
    assert(tame("SET_OPTION"@));
    lemma_tame_plain("SET_OPTION"@);
    lemma_hex_text_round(name, "SET_OPTION"@);
    lemma_tame_plain(hex_text(name));
    lemma_hex_text_round(value, "SET_OPTION"@);
    lemma_tame_plain(hex_text(value));
    assert forall|i: int| 0 <= i < fields.len() implies plain_field(#[trigger] fields[i]) by {}
    lemma_line_fields(fields);
    lemma_groups_none(fields);
    reveal(decode_group_22_spec);
}

} // verus!
