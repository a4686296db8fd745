//! Canonical key names read back as the keystrokes they name.

use vstd::prelude::*;
use vstd::string::*;
use crate::config::{canonical_key_spec, canonical_spec, default_bindings_spec, code_name, is_alpha, key_code_spec, lower, modifier_flags, parse_key_spec, KeyCode, KeyStroke};
use crate::text::{is_space, join, lemma_split_join, split, trim, trim_end, trim_start};

verus! {

/// No piece of a split holds the separator.
proof fn lemma_split_pieces_free(s: Seq<char>, sep: char)
    ensures
        forall|i: int| 0 <= i < split(s, sep).len() ==> !(#[trigger] split(s, sep)[i]).contains(sep),
    decreases s.len(),
{
    if s.len() > 0 {
        lemma_split_pieces_free(s.drop_last(), sep);
        crate::text::lemma_split_nonempty(s.drop_last(), sep);
        let p = split(s.drop_last(), sep);
        if s.last() != sep {
            assert forall|i: int| 0 <= i < split(s, sep).len() implies !(#[trigger] split(s, sep)[i]).contains(sep) by {
                if i == p.len() - 1 {
                    let q = p.last().push(s.last());
                    assert(split(s, sep)[i] == q);
                    if q.contains(sep) {
                        let j = choose|j: int| 0 <= j < q.len() && q[j] == sep;
                        if j < p.last().len() {
                            assert(p.last()[j] == sep);
                        }
                    }
                } else {
                    assert(split(s, sep)[i] == p[i]);
                }
            }
        } else {
            assert forall|i: int| 0 <= i < split(s, sep).len() implies !(#[trigger] split(s, sep)[i]).contains(sep) by {
                if i < p.len() {
                    assert(split(s, sep)[i] == p[i]);
                }
            }
        }
    }
}

/// The keystrokes whose canonical names read back as themselves: control
/// letters other than Tab and Enter, arrows, and the other keys a name can
/// give.
pub open spec fn names_itself(k: KeyStroke) -> bool {
    match k.code {
        KeyCode::Byte(b) => if k.ctrl {
            1 <= b <= 26 && b != 9 && b != 13
        } else {
            b == 32 || b == 9 || b == 13 || b == 27 || (0x21 <= b <= 0x7e && b != 0x2d)
        },
        _ => true,
    }
}

/// What a key name's last piece reads as, before Ctrl turns a letter into
/// its control byte.
pub open spec fn read_code(code: KeyCode, ctrl: bool) -> KeyCode {
    match code {
        KeyCode::Byte(b) => if ctrl {
            KeyCode::Byte((b + 96) as u8)
        } else {
            KeyCode::Byte(b)
        },
        _ => code,
    }
}

/// A name without dashes or surrounding spaces, which reads as its code.
pub open spec fn plain_name(name: Seq<char>) -> bool {
    &&& name.len() > 0
    &&& !name.contains('-')
    &&& !is_space(name[0])
    &&& !is_space(name.last())
}

/// The name of a code reads back as the code.
proof fn lemma_code_name_reads(k: KeyStroke)
    requires
        names_itself(k),
    ensures
        key_code_spec(code_name(k.code, k.ctrl)) === Some(read_code(k.code, k.ctrl)),
        plain_name(code_name(k.code, k.ctrl)),
{
    let name = code_name(k.code, k.ctrl);
    reveal_strlit("space");
    reveal_strlit("tab");
    reveal_strlit("enter");
    reveal_strlit("escape");
    reveal_strlit("esc");
    reveal_strlit("left");
    reveal_strlit("down");
    reveal_strlit("up");
    reveal_strlit("right");
    reveal_strlit("Space");
    reveal_strlit("Tab");
    reveal_strlit("Enter");
    reveal_strlit("Escape");
    reveal_strlit("Left");
    reveal_strlit("Down");
    reveal_strlit("Up");
    reveal_strlit("Right");
    match k.code {
        KeyCode::Byte(b) => {
            if b == 32 && !k.ctrl {
                assert(lower("Space"@) =~= "space"@);
                assert(name == "Space"@);
                assert(key_code_spec(name) == Some(KeyCode::Byte(32)));
                assert(read_code(k.code, k.ctrl) == KeyCode::Byte(32));
            } else if b == 9 && !k.ctrl {
                assert(lower("Tab"@) =~= "tab"@);
                assert(name == "Tab"@);
                assert(lower(name) != "space"@);
                assert(key_code_spec(name) == Some(KeyCode::Byte(9)));
                assert(read_code(k.code, k.ctrl) == KeyCode::Byte(9));
            } else if b == 13 && !k.ctrl {
                assert(lower("Enter"@) =~= "enter"@);
                assert(name == "Enter"@);
                assert("enter"@[0] != "space"@[0]);
                assert(lower(name) != "space"@ && lower(name) != "tab"@);
                assert(key_code_spec(name) == Some(KeyCode::Byte(13)));
                assert(read_code(k.code, k.ctrl) == KeyCode::Byte(13));
            } else if b == 27 && !k.ctrl {
                assert(lower("Escape"@) =~= "escape"@);
                assert(name == "Escape"@);
                assert(lower(name) != "space"@ && lower(name) != "tab"@ && lower(name) != "enter"@);
                assert(key_code_spec(name) == Some(KeyCode::Byte(27)));
                assert(read_code(k.code, k.ctrl) == KeyCode::Byte(27));
            } else {
                let c: char = if k.ctrl {
                    ((b + 96) as u8) as char
                } else {
                    b as char
                };
                let v: u8 = if k.ctrl {
                    (b + 96) as u8
                } else {
                    b
                };
                assert(name =~= seq![c]);
                assert(c as u32 == v as u32);
                assert(c as u8 == v);
                assert(lower(name).len() == 1);
                assert(lower(name) != "space"@ && lower(name) != "tab"@ && lower(name) != "enter"@);
                assert(lower(name) != "escape"@ && lower(name) != "esc"@ && lower(name) != "left"@);
                assert(lower(name) != "down"@ && lower(name) != "up"@ && lower(name) != "right"@);
                assert(name.len() == 1 && 0x21 <= (name[0] as u32) && (name[0] as u32) <= 0x7e);
                assert(key_code_spec(name) == Some(KeyCode::Byte(v)));
                assert(read_code(k.code, k.ctrl) == KeyCode::Byte(v));
                assert(!name.contains('-')) by {
                    assert(c != '-');
                }
            }
            assert(key_code_spec(name) === Some(read_code(k.code, k.ctrl)));
        },
        KeyCode::Left => {
            assert(lower("Left"@) =~= "left"@);
            assert("left"@.len() == 4);
        },
        KeyCode::Down => {
            assert(lower("Down"@) =~= "down"@);
            assert("down"@[0] != "left"@[0]);
        },
        KeyCode::Up => {
            assert(lower("Up"@) =~= "up"@);
        },
        KeyCode::Right => {
            assert(lower("Right"@) =~= "right"@);
            assert("right"@[0] != "space"@[0] && "right"@[0] != "enter"@[0]);
        },
    }
}

/// The modifier pieces of a canonical name, in order.
pub open spec fn modifier_names(k: KeyStroke) -> Seq<Seq<char>> {
    (if k.ctrl {
        seq!["C"@]
    } else {
        seq![]
    }) + (if k.alt {
        seq!["M"@]
    } else {
        seq![]
    }) + (if k.shift {
        seq!["S"@]
    } else {
        seq![]
    })
}

/// The modifier pieces read back as the modifiers.
proof fn lemma_modifiers_read(k: KeyStroke)
    ensures
        modifier_flags(modifier_names(k), false, false, false) == Some((k.ctrl, k.alt, k.shift)),
        forall|i: int| 0 <= i < modifier_names(k).len() ==> !(#[trigger] modifier_names(k)[i]).contains('-'),
{
    reveal_strlit("C");
    reveal_strlit("M");
    reveal_strlit("S");
    reveal_strlit("c");
    reveal_strlit("m");
    reveal_strlit("s");
    reveal_strlit("ctrl");
    reveal_strlit("control");
    reveal_strlit("meta");
    reveal_strlit("alt");
    reveal_strlit("shift");
    assert(lower("C"@) =~= "c"@);
    assert(lower("M"@) =~= "m"@);
    assert(lower("S"@) =~= "s"@);
    assert("m"@[0] != "c"@[0]);
    assert("s"@[0] != "c"@[0] && "s"@[0] != "m"@[0]);
    let ms = modifier_names(k);
    let e = Seq::<Seq<char>>::empty();
    assert(modifier_flags(e, k.ctrl, k.alt, k.shift) == Some((k.ctrl, k.alt, k.shift)));
    let s_part: Seq<Seq<char>> = if k.shift { seq!["S"@] } else { e };
    assert(modifier_flags(s_part, k.ctrl, k.alt, false) == Some((k.ctrl, k.alt, k.shift))) by {
        if k.shift {
            assert(s_part.drop_first() =~= e);
        }
    }
    let m_part: Seq<Seq<char>> = (if k.alt { seq!["M"@] } else { e }) + s_part;
    assert(modifier_flags(m_part, k.ctrl, false, false) == Some((k.ctrl, k.alt, k.shift))) by {
        if k.alt {
            assert(m_part[0] == "M"@);
            assert(m_part.drop_first() =~= s_part);
        } else {
            assert(m_part =~= s_part);
        }
    }
    assert(modifier_flags(ms, false, false, false) == Some((k.ctrl, k.alt, k.shift))) by {
        if k.ctrl {
            assert(ms[0] == "C"@);
            assert(ms.drop_first() =~= m_part);
        } else {
            assert(ms =~= m_part);
        }
    }
    assert forall|i: int| 0 <= i < ms.len() implies !(#[trigger] ms[i]).contains('-') by {
        assert(ms[i] == "C"@ || ms[i] == "M"@ || ms[i] == "S"@);
    }
}

/// A canonical name is its modifier pieces and its code's name joined by
/// dashes.
proof fn lemma_canonical_joined(k: KeyStroke)
    ensures
        canonical_spec(k) == join(modifier_names(k).push(code_name(k.code, k.ctrl)), '-'),
{
    reveal_strlit("C");
    reveal_strlit("M");
    reveal_strlit("S");
    reveal_strlit("C-");
    reveal_strlit("M-");
    reveal_strlit("S-");
    reveal_with_fuel(join, 4);
    let name = code_name(k.code, k.ctrl);
    let parts = modifier_names(k).push(name);
    if k.ctrl && k.alt && k.shift {
        assert(parts =~= seq!["C"@, "M"@, "S"@, name]);
        assert(parts.drop_last() =~= seq!["C"@, "M"@, "S"@]);
        assert(seq!["C"@, "M"@, "S"@].drop_last() =~= seq!["C"@, "M"@]);
        assert(seq!["C"@, "M"@].drop_last() =~= seq!["C"@]);
    } else if k.ctrl && k.alt {
        assert(parts =~= seq!["C"@, "M"@, name]);
        assert(parts.drop_last() =~= seq!["C"@, "M"@]);
        assert(seq!["C"@, "M"@].drop_last() =~= seq!["C"@]);
    } else if k.ctrl && k.shift {
        assert(parts =~= seq!["C"@, "S"@, name]);
        assert(parts.drop_last() =~= seq!["C"@, "S"@]);
        assert(seq!["C"@, "S"@].drop_last() =~= seq!["C"@]);
    } else if k.alt && k.shift {
        assert(parts =~= seq!["M"@, "S"@, name]);
        assert(parts.drop_last() =~= seq!["M"@, "S"@]);
        assert(seq!["M"@, "S"@].drop_last() =~= seq!["M"@]);
    } else if k.ctrl {
        assert(parts =~= seq!["C"@, name]);
        assert(parts.drop_last() =~= seq!["C"@]);
    } else if k.alt {
        assert(parts =~= seq!["M"@, name]);
        assert(parts.drop_last() =~= seq!["M"@]);
    } else if k.shift {
        assert(parts =~= seq!["S"@, name]);
        assert(parts.drop_last() =~= seq!["S"@]);
    } else {
        assert(parts =~= seq![name]);
    }
    assert(canonical_spec(k) =~= join(parts, '-'));
}

/// The canonical name of a keystroke parses back to that keystroke, so a
/// binding stored under it finds the same key again. This holds for every
/// control letter but Ctrl-I and Ctrl-M (whose bytes are those of Tab and
/// Enter, named without Ctrl), every arrow, and every key without Ctrl that
/// a name gives: Space, Tab, Enter, Escape and the printable characters
/// (`-` cannot be named, as the name is split at dashes).
pub proof fn law_canonical_key_parses_back(k: KeyStroke)
    requires
        names_itself(k),
    ensures
        parse_key_spec(canonical_spec(k)) == Ok::<KeyStroke, Seq<char>>(k),
{
    let name = code_name(k.code, k.ctrl);
    let parts = modifier_names(k).push(name);
    lemma_code_name_reads(k);
    lemma_modifiers_read(k);
    lemma_canonical_joined(k);
    let c = canonical_spec(k);
    assert forall|i: int| 0 <= i < parts.len() implies !(#[trigger] parts[i]).contains('-') by {
        if i < modifier_names(k).len() {
            assert(parts[i] == modifier_names(k)[i]);
        }
    }
    lemma_split_join(parts, '-');
    reveal_strlit("C-");
    reveal_strlit("M-");
    reveal_strlit("S-");
    let prefix = (if k.ctrl { "C-"@ } else { Seq::empty() }) + (if k.alt { "M-"@ } else { Seq::empty() })
        + (if k.shift { "S-"@ } else { Seq::empty() });
    assert(c =~= prefix + name);
    assert(c.len() > 0 && !is_space(c[0])) by {
        if prefix.len() > 0 {
            assert(c[0] == prefix[0]);
            assert(prefix[0] == 'C' || prefix[0] == 'M' || prefix[0] == 'S');
        } else {
            assert(c[0] == name[0]);
        }
    }
    assert(c.last() == name.last());
    assert(trim_start(c) == c);
    assert(trim_end(c) == c);
    assert(trim(c) == c);
    assert(split(trim(c), '-').drop_last() =~= modifier_names(k));
    assert(split(trim(c), '-').last() == name);
}

/// The keystrokes of the default bindings, in order.
pub open spec fn default_strokes() -> Seq<KeyStroke> {
    seq![
        KeyStroke { code: KeyCode::Byte(2u8), ctrl: true, alt: false, shift: false },
        KeyStroke { code: KeyCode::Byte(100u8), ctrl: false, alt: false, shift: false },
        KeyStroke { code: KeyCode::Byte(68u8), ctrl: false, alt: false, shift: false },
        KeyStroke { code: KeyCode::Byte(91u8), ctrl: false, alt: false, shift: false },
        KeyStroke { code: KeyCode::Byte(111u8), ctrl: false, alt: false, shift: false },
        KeyStroke { code: KeyCode::Byte(113u8), ctrl: false, alt: false, shift: false },
        KeyStroke { code: KeyCode::Byte(63u8), ctrl: false, alt: false, shift: false },
        KeyStroke { code: KeyCode::Byte(58u8), ctrl: false, alt: false, shift: false },
        KeyStroke { code: KeyCode::Byte(37u8), ctrl: false, alt: false, shift: false },
        KeyStroke { code: KeyCode::Byte(99u8), ctrl: false, alt: false, shift: false },
        KeyStroke { code: KeyCode::Byte(110u8), ctrl: false, alt: false, shift: false },
        KeyStroke { code: KeyCode::Byte(112u8), ctrl: false, alt: false, shift: false },
        KeyStroke { code: KeyCode::Byte(34u8), ctrl: false, alt: false, shift: false },
        KeyStroke { code: KeyCode::Byte(104u8), ctrl: false, alt: false, shift: false },
        KeyStroke { code: KeyCode::Byte(106u8), ctrl: false, alt: false, shift: false },
        KeyStroke { code: KeyCode::Byte(107u8), ctrl: false, alt: false, shift: false },
        KeyStroke { code: KeyCode::Byte(108u8), ctrl: false, alt: false, shift: false },
        KeyStroke { code: KeyCode::Left, ctrl: false, alt: false, shift: false },
        KeyStroke { code: KeyCode::Down, ctrl: false, alt: false, shift: false },
        KeyStroke { code: KeyCode::Up, ctrl: false, alt: false, shift: false },
        KeyStroke { code: KeyCode::Right, ctrl: false, alt: false, shift: false },
        KeyStroke { code: KeyCode::Byte(104u8), ctrl: false, alt: true, shift: false },
        KeyStroke { code: KeyCode::Byte(106u8), ctrl: false, alt: true, shift: false },
        KeyStroke { code: KeyCode::Byte(107u8), ctrl: false, alt: true, shift: false },
        KeyStroke { code: KeyCode::Byte(108u8), ctrl: false, alt: true, shift: false },
        KeyStroke { code: KeyCode::Left, ctrl: false, alt: true, shift: false },
        KeyStroke { code: KeyCode::Down, ctrl: false, alt: true, shift: false },
        KeyStroke { code: KeyCode::Up, ctrl: false, alt: true, shift: false },
        KeyStroke { code: KeyCode::Right, ctrl: false, alt: true, shift: false },
        KeyStroke { code: KeyCode::Byte(72u8), ctrl: false, alt: false, shift: false },
        KeyStroke { code: KeyCode::Byte(74u8), ctrl: false, alt: false, shift: false },
        KeyStroke { code: KeyCode::Byte(75u8), ctrl: false, alt: false, shift: false },
        KeyStroke { code: KeyCode::Byte(76u8), ctrl: false, alt: false, shift: false },
        KeyStroke { code: KeyCode::Left, ctrl: true, alt: false, shift: false },
        KeyStroke { code: KeyCode::Down, ctrl: true, alt: false, shift: false },
        KeyStroke { code: KeyCode::Up, ctrl: true, alt: false, shift: false },
        KeyStroke { code: KeyCode::Right, ctrl: true, alt: false, shift: false },
        KeyStroke { code: KeyCode::Byte(120u8), ctrl: false, alt: false, shift: false },
        KeyStroke { code: KeyCode::Byte(122u8), ctrl: false, alt: false, shift: false },
    ]
}

/// Default keys 0 to 7 are the canonical names of their keystrokes.
proof fn lemma_default_names_0()
    ensures
        forall|i: int| 0 <= i <= 7 ==> canonical_spec(#[trigger] default_strokes()[i]) == default_bindings_spec()[i].0
            && names_itself(default_strokes()[i]),
{
    let s = default_strokes();
    let d = default_bindings_spec();
    reveal_strlit("C-b");
    reveal_strlit("d");
    reveal_strlit("D");
    reveal_strlit("[");
    reveal_strlit("o");
    reveal_strlit("q");
    reveal_strlit("?");
    reveal_strlit(":");
    reveal_strlit("C-");
    reveal_strlit("M-");
    reveal_strlit("Left");
    reveal_strlit("Down");
    reveal_strlit("Up");
    reveal_strlit("Right");
    assert(canonical_spec(s[0]) =~= d[0].0);
    assert(canonical_spec(s[1]) =~= d[1].0);
    assert(canonical_spec(s[2]) =~= d[2].0);
    assert(canonical_spec(s[3]) =~= d[3].0);
    assert(canonical_spec(s[4]) =~= d[4].0);
    assert(canonical_spec(s[5]) =~= d[5].0);
    assert(canonical_spec(s[6]) =~= d[6].0);
    assert(canonical_spec(s[7]) =~= d[7].0);
}

/// Default keys 8 to 15 are the canonical names of their keystrokes.
proof fn lemma_default_names_1()
    ensures
        forall|i: int| 8 <= i <= 15 ==> canonical_spec(#[trigger] default_strokes()[i]) == default_bindings_spec()[i].0
            && names_itself(default_strokes()[i]),
{
    let s = default_strokes();
    let d = default_bindings_spec();
    reveal_strlit("%");
    reveal_strlit("c");
    reveal_strlit("n");
    reveal_strlit("p");
    reveal_strlit("\"");
    reveal_strlit("h");
    reveal_strlit("j");
    reveal_strlit("k");
    reveal_strlit("C-");
    reveal_strlit("M-");
    reveal_strlit("Left");
    reveal_strlit("Down");
    reveal_strlit("Up");
    reveal_strlit("Right");
    assert(canonical_spec(s[8]) =~= d[8].0);
    assert(canonical_spec(s[9]) =~= d[9].0);
    assert(canonical_spec(s[10]) =~= d[10].0);
    assert(canonical_spec(s[11]) =~= d[11].0);
    assert(canonical_spec(s[12]) =~= d[12].0);
    assert(canonical_spec(s[13]) =~= d[13].0);
    assert(canonical_spec(s[14]) =~= d[14].0);
    assert(canonical_spec(s[15]) =~= d[15].0);
}

/// Default keys 16 to 23 are the canonical names of their keystrokes.
proof fn lemma_default_names_2()
    ensures
        forall|i: int| 16 <= i <= 23 ==> canonical_spec(#[trigger] default_strokes()[i]) == default_bindings_spec()[i].0
            && names_itself(default_strokes()[i]),
{
    let s = default_strokes();
    let d = default_bindings_spec();
    reveal_strlit("l");
    reveal_strlit("Left");
    reveal_strlit("Down");
    reveal_strlit("Up");
    reveal_strlit("Right");
    reveal_strlit("M-h");
    reveal_strlit("M-j");
    reveal_strlit("M-k");
    reveal_strlit("C-");
    reveal_strlit("M-");
    reveal_strlit("Left");
    reveal_strlit("Down");
    reveal_strlit("Up");
    reveal_strlit("Right");
    assert(canonical_spec(s[16]) =~= d[16].0);
    assert(canonical_spec(s[17]) =~= d[17].0);
    assert(canonical_spec(s[18]) =~= d[18].0);
    assert(canonical_spec(s[19]) =~= d[19].0);
    assert(canonical_spec(s[20]) =~= d[20].0);
    assert(canonical_spec(s[21]) =~= d[21].0);
    assert(canonical_spec(s[22]) =~= d[22].0);
    assert(canonical_spec(s[23]) =~= d[23].0);
}

/// Default keys 24 to 31 are the canonical names of their keystrokes.
proof fn lemma_default_names_3()
    ensures
        forall|i: int| 24 <= i <= 31 ==> canonical_spec(#[trigger] default_strokes()[i]) == default_bindings_spec()[i].0
            && names_itself(default_strokes()[i]),
{
    let s = default_strokes();
    let d = default_bindings_spec();
    reveal_strlit("M-l");
    reveal_strlit("M-Left");
    reveal_strlit("M-Down");
    reveal_strlit("M-Up");
    reveal_strlit("M-Right");
    reveal_strlit("H");
    reveal_strlit("J");
    reveal_strlit("K");
    reveal_strlit("C-");
    reveal_strlit("M-");
    reveal_strlit("Left");
    reveal_strlit("Down");
    reveal_strlit("Up");
    reveal_strlit("Right");
    assert(canonical_spec(s[24]) =~= d[24].0);
    assert(canonical_spec(s[25]) =~= d[25].0);
    assert(canonical_spec(s[26]) =~= d[26].0);
    assert(canonical_spec(s[27]) =~= d[27].0);
    assert(canonical_spec(s[28]) =~= d[28].0);
    assert(canonical_spec(s[29]) =~= d[29].0);
    assert(canonical_spec(s[30]) =~= d[30].0);
    assert(canonical_spec(s[31]) =~= d[31].0);
}

/// Default keys 32 to 38 are the canonical names of their keystrokes.
proof fn lemma_default_names_4()
    ensures
        forall|i: int| 32 <= i <= 38 ==> canonical_spec(#[trigger] default_strokes()[i]) == default_bindings_spec()[i].0
            && names_itself(default_strokes()[i]),
{
    let s = default_strokes();
    let d = default_bindings_spec();
    reveal_strlit("L");
    reveal_strlit("C-Left");
    reveal_strlit("C-Down");
    reveal_strlit("C-Up");
    reveal_strlit("C-Right");
    reveal_strlit("x");
    reveal_strlit("z");
    reveal_strlit("C-");
    reveal_strlit("M-");
    reveal_strlit("Left");
    reveal_strlit("Down");
    reveal_strlit("Up");
    reveal_strlit("Right");
    assert(canonical_spec(s[32]) =~= d[32].0);
    assert(canonical_spec(s[33]) =~= d[33].0);
    assert(canonical_spec(s[34]) =~= d[34].0);
    assert(canonical_spec(s[35]) =~= d[35].0);
    assert(canonical_spec(s[36]) =~= d[36].0);
    assert(canonical_spec(s[37]) =~= d[37].0);
    assert(canonical_spec(s[38]) =~= d[38].0);
}

/// The default keys are the canonical names of the default keystrokes.
proof fn lemma_default_names()
    ensures
        default_bindings_spec().len() == default_strokes().len(),
        forall|i: int| 0 <= i < default_strokes().len() ==> canonical_spec(#[trigger] default_strokes()[i])
            == default_bindings_spec()[i].0 && names_itself(default_strokes()[i]),
{
    lemma_default_names_0();
    lemma_default_names_1();
    lemma_default_names_2();
    lemma_default_names_3();
    lemma_default_names_4();
}

/// No two default keystrokes are the same.
#[verifier::rlimit(100)]
#[verifier::spinoff_prover]
proof fn lemma_default_strokes_distinct()
    ensures
        forall|i: int, j: int| 0 <= i < j < default_strokes().len() ==> #[trigger] default_strokes()[i]
            != #[trigger] default_strokes()[j],
{
    let s = default_strokes();
    assert forall|i: int, j: int| 0 <= i < j < s.len() implies #[trigger] s[i] != #[trigger] s[j] by {
        assert(stroke_number(s[i]) != stroke_number(s[j]));
    }
}

/// A number for each keystroke, different for different keystrokes.
pub open spec fn stroke_number(k: KeyStroke) -> int {
    let code = match k.code {
        KeyCode::Byte(b) => b as int,
        KeyCode::Left => 256,
        KeyCode::Down => 257,
        KeyCode::Up => 258,
        KeyCode::Right => 259,
    };
    code * 8 + (if k.ctrl { 4int } else { 0 }) + (if k.alt { 2int } else { 0 }) + (if k.shift { 1int } else { 0 })
}

/// Every default binding's key is already in canonical form, and no two
/// default bindings share a key.
#[verifier::spinoff_prover]
pub proof fn law_default_keys_canonical_and_distinct()
    ensures
        forall|i: int| 0 <= i < default_bindings_spec().len() ==> canonical_key_spec(#[trigger] default_bindings_spec()[i].0)
            == Ok::<Seq<char>, Seq<char>>(default_bindings_spec()[i].0),
        forall|i: int, j: int| 0 <= i < j < default_bindings_spec().len() ==> #[trigger] default_bindings_spec()[i].0
            != #[trigger] default_bindings_spec()[j].0,
{
    let s = default_strokes();
    let d = default_bindings_spec();
    lemma_default_names();
    lemma_default_strokes_distinct();
    assert forall|i: int| 0 <= i < d.len() implies canonical_key_spec(#[trigger] d[i].0) == Ok::<Seq<char>, Seq<char>>(d[i].0) by {
        assert(canonical_spec(s[i]) == d[i].0);
        law_canonical_key_parses_back(s[i]);
    }
    assert forall|i: int, j: int| 0 <= i < j < d.len() implies #[trigger] d[i].0 != #[trigger] d[j].0 by {
        assert(canonical_spec(s[i]) == d[i].0);
        assert(canonical_spec(s[j]) == d[j].0);
        law_canonical_key_parses_back(s[i]);
        law_canonical_key_parses_back(s[j]);
        assert(s[i] != s[j]);
    }
}

/// Text in which every whitespace character is a single space between two
/// other characters.
pub open spec fn single_spaced(s: Seq<char>) -> bool {
    &&& s.len() > 0
    &&& !is_space(s[0])
    &&& !is_space(s.last())
    &&& forall|i: int| 0 <= i < s.len() && #[trigger] is_space(s[i]) ==> s[i] == ' ' && i + 1 < s.len()
        && !is_space(s[i + 1])
}

/// Joining with a space a list whose last word grew by `c` grows the text
/// by `c`.
proof fn lemma_join_grow_last(ws: Seq<Seq<char>>, c: char)
    requires
        ws.len() > 0,
    ensures
        join(ws.update(ws.len() - 1, ws.last().push(c)), ' ') == join(ws, ' ').push(c),
{
    let u = ws.update(ws.len() - 1, ws.last().push(c));
    if ws.len() == 1 {
        assert(u[0] == ws[0].push(c));
    } else {
        assert(u.drop_last() =~= ws.drop_last());
        assert(join(u, ' ') == join(ws.drop_last(), ' ').push(' ') + ws.last().push(c));
        assert(join(ws, ' ') == join(ws.drop_last(), ' ').push(' ') + ws.last());
        assert(join(ws.drop_last(), ' ').push(' ') + ws.last().push(c) =~= (join(ws.drop_last(), ' ').push(' ')
            + ws.last()).push(c));
    }
}

/// Single-spaced text is its words joined by single spaces.
proof fn lemma_single_spaced_words(s: Seq<char>)
    requires
        single_spaced(s),
    ensures
        join(crate::config::words(s), ' ') == s,
        crate::config::words(s).len() > 0,
    decreases s.len(),
{
    let c = s.last();
    let p = s.drop_last();
    if s.len() == 1 {
        assert(crate::config::words(p) =~= Seq::<Seq<char>>::empty());
        assert(crate::config::words(s) =~= seq![seq![c]]);
        assert(s =~= seq![c]);
    } else if !is_space(p.last()) {
        assert forall|i: int| 0 <= i < p.len() && #[trigger] is_space(p[i]) implies p[i] == ' ' && i + 1 < p.len()
            && !is_space(p[i + 1]) by {
            assert(p[i] == s[i]);
            assert(s[i + 1] == p[i + 1] || i + 1 == p.len());
        }
        lemma_single_spaced_words(p);
        assert(!is_space(s[s.len() - 2]));
        lemma_join_grow_last(crate::config::words(p), c);
        assert(p.push(c) =~= s);
    } else {
        let q = p.drop_last();
        assert(is_space(s[s.len() - 2]));
        assert(s[s.len() - 2] == ' ');
        assert(q.len() > 0);
        assert forall|i: int| 0 <= i < q.len() && #[trigger] is_space(q[i]) implies q[i] == ' ' && i + 1 < q.len()
            && !is_space(q[i + 1]) by {
            assert(q[i] == s[i]);
            if i + 1 == q.len() {
                assert(s[i + 1] == ' ');
            }
            assert(q[i + 1] == s[i + 1] || i + 1 >= q.len());
        }
        assert(!is_space(q.last())) by {
            assert(q.last() == s[s.len() - 3]);
        }
        lemma_single_spaced_words(q);
        assert(crate::config::words(p) == crate::config::words(q));
        assert(crate::config::words(s) == crate::config::words(q).push(seq![c]));
        let wq = crate::config::words(q);
        assert(wq.push(seq![c]).drop_last() =~= wq);
        assert(join(wq.push(seq![c]), ' ') == join(wq, ' ').push(' ') + seq![c]);
        assert(q.push(' ') + seq![c] =~= s);
    }
}

#[verifier::spinoff_prover]
proof fn lemma_default_command_0()
    ensures
        crate::config::binding_command_spec("send-prefix"@) == Ok::<Seq<char>, Seq<char>>("send-prefix"@),
{
    reveal_strlit("send-prefix");
    let c = "send-prefix"@;
    assert(single_spaced(c)) by {
        assert forall|i: int| 0 <= i < c.len() && #[trigger] is_space(c[i]) implies c[i] == ' ' && i + 1 < c.len()
            && !is_space(c[i + 1]) by {}
    }
    lemma_single_spaced_words(c);
}

#[verifier::spinoff_prover]
proof fn lemma_default_command_1()
    ensures
        crate::config::binding_command_spec("detach-client"@) == Ok::<Seq<char>, Seq<char>>("detach-client"@),
{
    reveal_strlit("detach-client");
    let c = "detach-client"@;
    assert(single_spaced(c)) by {
        assert forall|i: int| 0 <= i < c.len() && #[trigger] is_space(c[i]) implies c[i] == ' ' && i + 1 < c.len()
            && !is_space(c[i + 1]) by {}
    }
    lemma_single_spaced_words(c);
}

#[verifier::spinoff_prover]
proof fn lemma_default_command_2()
    ensures
        crate::config::binding_command_spec("copy-mode"@) == Ok::<Seq<char>, Seq<char>>("copy-mode"@),
{
    reveal_strlit("copy-mode");
    let c = "copy-mode"@;
    assert(single_spaced(c)) by {
        assert forall|i: int| 0 <= i < c.len() && #[trigger] is_space(c[i]) implies c[i] == ' ' && i + 1 < c.len()
            && !is_space(c[i + 1]) by {}
    }
    lemma_single_spaced_words(c);
}

#[verifier::spinoff_prover]
proof fn lemma_default_command_3()
    ensures
        crate::config::binding_command_spec("display-panes"@) == Ok::<Seq<char>, Seq<char>>("display-panes"@),
{
    reveal_strlit("display-panes");
    let c = "display-panes"@;
    assert(single_spaced(c)) by {
        assert forall|i: int| 0 <= i < c.len() && #[trigger] is_space(c[i]) implies c[i] == ' ' && i + 1 < c.len()
            && !is_space(c[i + 1]) by {}
    }
    lemma_single_spaced_words(c);
}

#[verifier::spinoff_prover]
proof fn lemma_default_command_4()
    ensures
        crate::config::binding_command_spec("show-help"@) == Ok::<Seq<char>, Seq<char>>("show-help"@),
{
    reveal_strlit("show-help");
    let c = "show-help"@;
    assert(single_spaced(c)) by {
        assert forall|i: int| 0 <= i < c.len() && #[trigger] is_space(c[i]) implies c[i] == ' ' && i + 1 < c.len()
            && !is_space(c[i + 1]) by {}
    }
    lemma_single_spaced_words(c);
}

#[verifier::spinoff_prover]
proof fn lemma_default_command_5()
    ensures
        crate::config::binding_command_spec("command-prompt"@) == Ok::<Seq<char>, Seq<char>>("command-prompt"@),
{
    reveal_strlit("command-prompt");
    let c = "command-prompt"@;
    assert(single_spaced(c)) by {
        assert forall|i: int| 0 <= i < c.len() && #[trigger] is_space(c[i]) implies c[i] == ' ' && i + 1 < c.len()
            && !is_space(c[i + 1]) by {}
    }
    lemma_single_spaced_words(c);
}

#[verifier::spinoff_prover]
proof fn lemma_default_command_6()
    ensures
        crate::config::binding_command_spec("next-pane"@) == Ok::<Seq<char>, Seq<char>>("next-pane"@),
{
    reveal_strlit("next-pane");
    let c = "next-pane"@;
    assert(single_spaced(c)) by {
        assert forall|i: int| 0 <= i < c.len() && #[trigger] is_space(c[i]) implies c[i] == ' ' && i + 1 < c.len()
            && !is_space(c[i + 1]) by {}
    }
    lemma_single_spaced_words(c);
}

#[verifier::spinoff_prover]
proof fn lemma_default_command_7()
    ensures
        crate::config::binding_command_spec("new-window"@) == Ok::<Seq<char>, Seq<char>>("new-window"@),
{
    reveal_strlit("new-window");
    let c = "new-window"@;
    assert(single_spaced(c)) by {
        assert forall|i: int| 0 <= i < c.len() && #[trigger] is_space(c[i]) implies c[i] == ' ' && i + 1 < c.len()
            && !is_space(c[i + 1]) by {}
    }
    lemma_single_spaced_words(c);
}

#[verifier::spinoff_prover]
proof fn lemma_default_command_8()
    ensures
        crate::config::binding_command_spec("next-window"@) == Ok::<Seq<char>, Seq<char>>("next-window"@),
{
    reveal_strlit("next-window");
    let c = "next-window"@;
    assert(single_spaced(c)) by {
        assert forall|i: int| 0 <= i < c.len() && #[trigger] is_space(c[i]) implies c[i] == ' ' && i + 1 < c.len()
            && !is_space(c[i + 1]) by {}
    }
    lemma_single_spaced_words(c);
}

#[verifier::spinoff_prover]
proof fn lemma_default_command_9()
    ensures
        crate::config::binding_command_spec("previous-window"@) == Ok::<Seq<char>, Seq<char>>("previous-window"@),
{
    reveal_strlit("previous-window");
    let c = "previous-window"@;
    assert(single_spaced(c)) by {
        assert forall|i: int| 0 <= i < c.len() && #[trigger] is_space(c[i]) implies c[i] == ' ' && i + 1 < c.len()
            && !is_space(c[i + 1]) by {}
    }
    lemma_single_spaced_words(c);
}

#[verifier::spinoff_prover]
proof fn lemma_default_command_10()
    ensures
        crate::config::binding_command_spec("split-window -h"@) == Ok::<Seq<char>, Seq<char>>("split-window -h"@),
{
    reveal_strlit("split-window -h");
    let c = "split-window -h"@;
    assert(single_spaced(c)) by {
        assert forall|i: int| 0 <= i < c.len() && #[trigger] is_space(c[i]) implies c[i] == ' ' && i + 1 < c.len()
            && !is_space(c[i + 1]) by {}
    }
    lemma_single_spaced_words(c);
}

#[verifier::spinoff_prover]
proof fn lemma_default_command_11()
    ensures
        crate::config::binding_command_spec("split-window -v"@) == Ok::<Seq<char>, Seq<char>>("split-window -v"@),
{
    reveal_strlit("split-window -v");
    let c = "split-window -v"@;
    assert(single_spaced(c)) by {
        assert forall|i: int| 0 <= i < c.len() && #[trigger] is_space(c[i]) implies c[i] == ' ' && i + 1 < c.len()
            && !is_space(c[i + 1]) by {}
    }
    lemma_single_spaced_words(c);
}

#[verifier::spinoff_prover]
proof fn lemma_default_command_12()
    ensures
        crate::config::binding_command_spec("select-pane -L"@) == Ok::<Seq<char>, Seq<char>>("select-pane -L"@),
{
    reveal_strlit("select-pane -L");
    let c = "select-pane -L"@;
    assert(single_spaced(c)) by {
        assert forall|i: int| 0 <= i < c.len() && #[trigger] is_space(c[i]) implies c[i] == ' ' && i + 1 < c.len()
            && !is_space(c[i + 1]) by {}
    }
    lemma_single_spaced_words(c);
}

#[verifier::spinoff_prover]
proof fn lemma_default_command_13()
    ensures
        crate::config::binding_command_spec("select-pane -D"@) == Ok::<Seq<char>, Seq<char>>("select-pane -D"@),
{
    reveal_strlit("select-pane -D");
    let c = "select-pane -D"@;
    assert(single_spaced(c)) by {
        assert forall|i: int| 0 <= i < c.len() && #[trigger] is_space(c[i]) implies c[i] == ' ' && i + 1 < c.len()
            && !is_space(c[i + 1]) by {}
    }
    lemma_single_spaced_words(c);
}

#[verifier::spinoff_prover]
proof fn lemma_default_command_14()
    ensures
        crate::config::binding_command_spec("select-pane -U"@) == Ok::<Seq<char>, Seq<char>>("select-pane -U"@),
{
    reveal_strlit("select-pane -U");
    let c = "select-pane -U"@;
    assert(single_spaced(c)) by {
        assert forall|i: int| 0 <= i < c.len() && #[trigger] is_space(c[i]) implies c[i] == ' ' && i + 1 < c.len()
            && !is_space(c[i + 1]) by {}
    }
    lemma_single_spaced_words(c);
}

#[verifier::spinoff_prover]
proof fn lemma_default_command_15()
    ensures
        crate::config::binding_command_spec("select-pane -R"@) == Ok::<Seq<char>, Seq<char>>("select-pane -R"@),
{
    reveal_strlit("select-pane -R");
    let c = "select-pane -R"@;
    assert(single_spaced(c)) by {
        assert forall|i: int| 0 <= i < c.len() && #[trigger] is_space(c[i]) implies c[i] == ' ' && i + 1 < c.len()
            && !is_space(c[i + 1]) by {}
    }
    lemma_single_spaced_words(c);
}

#[verifier::spinoff_prover]
proof fn lemma_default_command_16()
    ensures
        crate::config::binding_command_spec("resize-pane -L"@) == Ok::<Seq<char>, Seq<char>>("resize-pane -L"@),
{
    reveal_strlit("resize-pane -L");
    let c = "resize-pane -L"@;
    assert(single_spaced(c)) by {
        assert forall|i: int| 0 <= i < c.len() && #[trigger] is_space(c[i]) implies c[i] == ' ' && i + 1 < c.len()
            && !is_space(c[i + 1]) by {}
    }
    lemma_single_spaced_words(c);
}

#[verifier::spinoff_prover]
proof fn lemma_default_command_17()
    ensures
        crate::config::binding_command_spec("resize-pane -D"@) == Ok::<Seq<char>, Seq<char>>("resize-pane -D"@),
{
    reveal_strlit("resize-pane -D");
    let c = "resize-pane -D"@;
    assert(single_spaced(c)) by {
        assert forall|i: int| 0 <= i < c.len() && #[trigger] is_space(c[i]) implies c[i] == ' ' && i + 1 < c.len()
            && !is_space(c[i + 1]) by {}
    }
    lemma_single_spaced_words(c);
}

#[verifier::spinoff_prover]
proof fn lemma_default_command_18()
    ensures
        crate::config::binding_command_spec("resize-pane -U"@) == Ok::<Seq<char>, Seq<char>>("resize-pane -U"@),
{
    reveal_strlit("resize-pane -U");
    let c = "resize-pane -U"@;
    assert(single_spaced(c)) by {
        assert forall|i: int| 0 <= i < c.len() && #[trigger] is_space(c[i]) implies c[i] == ' ' && i + 1 < c.len()
            && !is_space(c[i + 1]) by {}
    }
    lemma_single_spaced_words(c);
}

#[verifier::spinoff_prover]
proof fn lemma_default_command_19()
    ensures
        crate::config::binding_command_spec("resize-pane -R"@) == Ok::<Seq<char>, Seq<char>>("resize-pane -R"@),
{
    reveal_strlit("resize-pane -R");
    let c = "resize-pane -R"@;
    assert(single_spaced(c)) by {
        assert forall|i: int| 0 <= i < c.len() && #[trigger] is_space(c[i]) implies c[i] == ' ' && i + 1 < c.len()
            && !is_space(c[i + 1]) by {}
    }
    lemma_single_spaced_words(c);
}

#[verifier::spinoff_prover]
proof fn lemma_default_command_20()
    ensures
        crate::config::binding_command_spec("resize-pane -L 1"@) == Ok::<Seq<char>, Seq<char>>("resize-pane -L 1"@),
{
    reveal_strlit("resize-pane -L 1");
    let c = "resize-pane -L 1"@;
    assert(single_spaced(c)) by {
        assert forall|i: int| 0 <= i < c.len() && #[trigger] is_space(c[i]) implies c[i] == ' ' && i + 1 < c.len()
            && !is_space(c[i + 1]) by {}
    }
    lemma_single_spaced_words(c);
    reveal_strlit("resize-pane -L");
    reveal_strlit("resize-pane ");
    reveal_strlit("1");
    assert(c.drop_last().last() == ' ');
    assert(crate::config::last_index_of(c.drop_last(), ' ') == Some(14int));
    assert(crate::config::last_index_of(c, ' ') == Some(14int));
    assert(c.take(14) =~= "resize-pane -L"@);
    assert(c.skip(15) =~= "1"@);
    assert("resize-pane -L"@.take(12) =~= "resize-pane "@);
    crate::text::lemma_parse_decimal(1nat, usize::MAX as nat);
    assert(crate::text::decimal(1nat) =~= "1"@) by {
        crate::text::lemma_decimal_digits(1nat);
    }
}

#[verifier::spinoff_prover]
proof fn lemma_default_command_21()
    ensures
        crate::config::binding_command_spec("resize-pane -D 1"@) == Ok::<Seq<char>, Seq<char>>("resize-pane -D 1"@),
{
    reveal_strlit("resize-pane -D 1");
    let c = "resize-pane -D 1"@;
    assert(single_spaced(c)) by {
        assert forall|i: int| 0 <= i < c.len() && #[trigger] is_space(c[i]) implies c[i] == ' ' && i + 1 < c.len()
            && !is_space(c[i + 1]) by {}
    }
    lemma_single_spaced_words(c);
    reveal_strlit("resize-pane -D");
    reveal_strlit("resize-pane ");
    reveal_strlit("1");
    assert(c.drop_last().last() == ' ');
    assert(crate::config::last_index_of(c.drop_last(), ' ') == Some(14int));
    assert(crate::config::last_index_of(c, ' ') == Some(14int));
    assert(c.take(14) =~= "resize-pane -D"@);
    assert(c.skip(15) =~= "1"@);
    assert("resize-pane -D"@.take(12) =~= "resize-pane "@);
    crate::text::lemma_parse_decimal(1nat, usize::MAX as nat);
    assert(crate::text::decimal(1nat) =~= "1"@) by {
        crate::text::lemma_decimal_digits(1nat);
    }
}

#[verifier::spinoff_prover]
proof fn lemma_default_command_22()
    ensures
        crate::config::binding_command_spec("resize-pane -U 1"@) == Ok::<Seq<char>, Seq<char>>("resize-pane -U 1"@),
{
    reveal_strlit("resize-pane -U 1");
    let c = "resize-pane -U 1"@;
    assert(single_spaced(c)) by {
        assert forall|i: int| 0 <= i < c.len() && #[trigger] is_space(c[i]) implies c[i] == ' ' && i + 1 < c.len()
            && !is_space(c[i + 1]) by {}
    }
    lemma_single_spaced_words(c);
    reveal_strlit("resize-pane -U");
    reveal_strlit("resize-pane ");
    reveal_strlit("1");
    assert(c.drop_last().last() == ' ');
    assert(crate::config::last_index_of(c.drop_last(), ' ') == Some(14int));
    assert(crate::config::last_index_of(c, ' ') == Some(14int));
    assert(c.take(14) =~= "resize-pane -U"@);
    assert(c.skip(15) =~= "1"@);
    assert("resize-pane -U"@.take(12) =~= "resize-pane "@);
    crate::text::lemma_parse_decimal(1nat, usize::MAX as nat);
    assert(crate::text::decimal(1nat) =~= "1"@) by {
        crate::text::lemma_decimal_digits(1nat);
    }
}

#[verifier::spinoff_prover]
proof fn lemma_default_command_23()
    ensures
        crate::config::binding_command_spec("resize-pane -R 1"@) == Ok::<Seq<char>, Seq<char>>("resize-pane -R 1"@),
{
    reveal_strlit("resize-pane -R 1");
    let c = "resize-pane -R 1"@;
    assert(single_spaced(c)) by {
        assert forall|i: int| 0 <= i < c.len() && #[trigger] is_space(c[i]) implies c[i] == ' ' && i + 1 < c.len()
            && !is_space(c[i + 1]) by {}
    }
    lemma_single_spaced_words(c);
    reveal_strlit("resize-pane -R");
    reveal_strlit("resize-pane ");
    reveal_strlit("1");
    assert(c.drop_last().last() == ' ');
    assert(crate::config::last_index_of(c.drop_last(), ' ') == Some(14int));
    assert(crate::config::last_index_of(c, ' ') == Some(14int));
    assert(c.take(14) =~= "resize-pane -R"@);
    assert(c.skip(15) =~= "1"@);
    assert("resize-pane -R"@.take(12) =~= "resize-pane "@);
    crate::text::lemma_parse_decimal(1nat, usize::MAX as nat);
    assert(crate::text::decimal(1nat) =~= "1"@) by {
        crate::text::lemma_decimal_digits(1nat);
    }
}

#[verifier::spinoff_prover]
proof fn lemma_default_command_24()
    ensures
        crate::config::binding_command_spec("kill-pane"@) == Ok::<Seq<char>, Seq<char>>("kill-pane"@),
{
    reveal_strlit("kill-pane");
    let c = "kill-pane"@;
    assert(single_spaced(c)) by {
        assert forall|i: int| 0 <= i < c.len() && #[trigger] is_space(c[i]) implies c[i] == ' ' && i + 1 < c.len()
            && !is_space(c[i + 1]) by {}
    }
    lemma_single_spaced_words(c);
}

#[verifier::spinoff_prover]
proof fn lemma_default_command_25()
    ensures
        crate::config::binding_command_spec("zoom-pane"@) == Ok::<Seq<char>, Seq<char>>("zoom-pane"@),
{
    reveal_strlit("zoom-pane");
    let c = "zoom-pane"@;
    assert(single_spaced(c)) by {
        assert forall|i: int| 0 <= i < c.len() && #[trigger] is_space(c[i]) implies c[i] == ' ' && i + 1 < c.len()
            && !is_space(c[i + 1]) by {}
    }
    lemma_single_spaced_words(c);
}

/// Every default binding's action is one a key may be bound to, already
/// in its normal spacing.
#[verifier::spinoff_prover]
#[verifier::rlimit(100)]
pub proof fn law_default_commands_valid()
    ensures
        forall|i: int| 0 <= i < default_bindings_spec().len() ==> crate::config::binding_command_spec(
            #[trigger] default_bindings_spec()[i].1,
        ) == Ok::<Seq<char>, Seq<char>>(default_bindings_spec()[i].1),
{
    let d = default_bindings_spec();
    assert(crate::config::binding_command_spec(d[0].1) == Ok::<Seq<char>, Seq<char>>(d[0].1)) by {
        lemma_default_command_0();
    }
    assert(crate::config::binding_command_spec(d[1].1) == Ok::<Seq<char>, Seq<char>>(d[1].1)) by {
        lemma_default_command_1();
    }
    assert(crate::config::binding_command_spec(d[2].1) == Ok::<Seq<char>, Seq<char>>(d[2].1)) by {
        lemma_default_command_1();
    }
    assert(crate::config::binding_command_spec(d[3].1) == Ok::<Seq<char>, Seq<char>>(d[3].1)) by {
        lemma_default_command_2();
    }
    assert(crate::config::binding_command_spec(d[4].1) == Ok::<Seq<char>, Seq<char>>(d[4].1)) by {
        lemma_default_command_6();
    }
    assert(crate::config::binding_command_spec(d[5].1) == Ok::<Seq<char>, Seq<char>>(d[5].1)) by {
        lemma_default_command_3();
    }
    assert(crate::config::binding_command_spec(d[6].1) == Ok::<Seq<char>, Seq<char>>(d[6].1)) by {
        lemma_default_command_4();
    }
    assert(crate::config::binding_command_spec(d[7].1) == Ok::<Seq<char>, Seq<char>>(d[7].1)) by {
        lemma_default_command_5();
    }
    assert(crate::config::binding_command_spec(d[8].1) == Ok::<Seq<char>, Seq<char>>(d[8].1)) by {
        lemma_default_command_10();
    }
    assert(crate::config::binding_command_spec(d[9].1) == Ok::<Seq<char>, Seq<char>>(d[9].1)) by {
        lemma_default_command_7();
    }
    assert(crate::config::binding_command_spec(d[10].1) == Ok::<Seq<char>, Seq<char>>(d[10].1)) by {
        lemma_default_command_8();
    }
    assert(crate::config::binding_command_spec(d[11].1) == Ok::<Seq<char>, Seq<char>>(d[11].1)) by {
        lemma_default_command_9();
    }
    assert(crate::config::binding_command_spec(d[12].1) == Ok::<Seq<char>, Seq<char>>(d[12].1)) by {
        lemma_default_command_11();
    }
    assert(crate::config::binding_command_spec(d[13].1) == Ok::<Seq<char>, Seq<char>>(d[13].1)) by {
        lemma_default_command_12();
    }
    assert(crate::config::binding_command_spec(d[14].1) == Ok::<Seq<char>, Seq<char>>(d[14].1)) by {
        lemma_default_command_13();
    }
    assert(crate::config::binding_command_spec(d[15].1) == Ok::<Seq<char>, Seq<char>>(d[15].1)) by {
        lemma_default_command_14();
    }
    assert(crate::config::binding_command_spec(d[16].1) == Ok::<Seq<char>, Seq<char>>(d[16].1)) by {
        lemma_default_command_15();
    }
    assert(crate::config::binding_command_spec(d[17].1) == Ok::<Seq<char>, Seq<char>>(d[17].1)) by {
        lemma_default_command_12();
    }
    assert(crate::config::binding_command_spec(d[18].1) == Ok::<Seq<char>, Seq<char>>(d[18].1)) by {
        lemma_default_command_13();
    }
    assert(crate::config::binding_command_spec(d[19].1) == Ok::<Seq<char>, Seq<char>>(d[19].1)) by {
        lemma_default_command_14();
    }
    assert(crate::config::binding_command_spec(d[20].1) == Ok::<Seq<char>, Seq<char>>(d[20].1)) by {
        lemma_default_command_15();
    }
    assert(crate::config::binding_command_spec(d[21].1) == Ok::<Seq<char>, Seq<char>>(d[21].1)) by {
        lemma_default_command_12();
    }
    assert(crate::config::binding_command_spec(d[22].1) == Ok::<Seq<char>, Seq<char>>(d[22].1)) by {
        lemma_default_command_13();
    }
    assert(crate::config::binding_command_spec(d[23].1) == Ok::<Seq<char>, Seq<char>>(d[23].1)) by {
        lemma_default_command_14();
    }
    assert(crate::config::binding_command_spec(d[24].1) == Ok::<Seq<char>, Seq<char>>(d[24].1)) by {
        lemma_default_command_15();
    }
    assert(crate::config::binding_command_spec(d[25].1) == Ok::<Seq<char>, Seq<char>>(d[25].1)) by {
        lemma_default_command_12();
    }
    assert(crate::config::binding_command_spec(d[26].1) == Ok::<Seq<char>, Seq<char>>(d[26].1)) by {
        lemma_default_command_13();
    }
    assert(crate::config::binding_command_spec(d[27].1) == Ok::<Seq<char>, Seq<char>>(d[27].1)) by {
        lemma_default_command_14();
    }
    assert(crate::config::binding_command_spec(d[28].1) == Ok::<Seq<char>, Seq<char>>(d[28].1)) by {
        lemma_default_command_15();
    }
    assert(crate::config::binding_command_spec(d[29].1) == Ok::<Seq<char>, Seq<char>>(d[29].1)) by {
        lemma_default_command_16();
    }
    assert(crate::config::binding_command_spec(d[30].1) == Ok::<Seq<char>, Seq<char>>(d[30].1)) by {
        lemma_default_command_17();
    }
    assert(crate::config::binding_command_spec(d[31].1) == Ok::<Seq<char>, Seq<char>>(d[31].1)) by {
        lemma_default_command_18();
    }
    assert(crate::config::binding_command_spec(d[32].1) == Ok::<Seq<char>, Seq<char>>(d[32].1)) by {
        lemma_default_command_19();
    }
    assert(crate::config::binding_command_spec(d[33].1) == Ok::<Seq<char>, Seq<char>>(d[33].1)) by {
        lemma_default_command_20();
    }
    assert(crate::config::binding_command_spec(d[34].1) == Ok::<Seq<char>, Seq<char>>(d[34].1)) by {
        lemma_default_command_21();
    }
    assert(crate::config::binding_command_spec(d[35].1) == Ok::<Seq<char>, Seq<char>>(d[35].1)) by {
        lemma_default_command_22();
    }
    assert(crate::config::binding_command_spec(d[36].1) == Ok::<Seq<char>, Seq<char>>(d[36].1)) by {
        lemma_default_command_23();
    }
    assert(crate::config::binding_command_spec(d[37].1) == Ok::<Seq<char>, Seq<char>>(d[37].1)) by {
        lemma_default_command_24();
    }
    assert(crate::config::binding_command_spec(d[38].1) == Ok::<Seq<char>, Seq<char>>(d[38].1)) by {
        lemma_default_command_25();
    }
    assert forall|i: int| 0 <= i < d.len() implies crate::config::binding_command_spec(#[trigger] d[i].1)
        == Ok::<Seq<char>, Seq<char>>(d[i].1) by {
        assert(0 <= i < 39);
    }
}

} // verus!
