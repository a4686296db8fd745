//! Key names and runtime options: parsing a key such as `C-b` or
//! `M-Left` into a keystroke, its canonical spelling, the actions a prefix
//! key may be bound to, and the values the server options accept.

use vstd::prelude::*;
use vstd::string::*;
use crate::protocol::{KeyBinding, OptionEntry};
use crate::text::{
    chars_eq, chars_eq_str, chars_of, debug_quote, debug_quoted, is_space, is_space_char,
    join, parse_unsigned, parse_usize_chars, push_char, split, split_chars, string_from_chars,
    trim, trim_chars,
};
use crate::wire::concat_str;

verus! {

/// The prefix key a server starts with.
pub const DEFAULT_PREFIX_KEY: &'static str = "C-b";

/// The option that holds the prefix key.
pub const OPTION_PREFIX: &'static str = "prefix";

/// The option that turns the status-line hints on or off.
pub const OPTION_STATUS_HINTS: &'static str = "status-hints";

/// What a key produces: a byte, or one of the arrow keys.
#[derive(Debug, Clone, Copy, PartialEq, Eq, Structural)]
pub enum KeyCode {
    Byte(u8),
    Left,
    Down,
    Up,
    Right,
}

/// A key with its modifiers.
#[derive(Debug, Clone, Copy, PartialEq, Eq, Structural)]
pub struct KeyStroke {
    pub code: KeyCode,
    pub ctrl: bool,
    pub alt: bool,
    pub shift: bool,
}

impl KeyStroke {
    /// Whether the key acts without the prefix key first: keys held with
    /// Alt do.
    pub fn is_global_binding(self) -> (r: bool)
        ensures
            r == self.alt,
    {
        self.alt
    }
}

/// `c` in lower case when it is an ASCII capital letter.
pub open spec fn ascii_lower(c: char) -> char {
    if 'A' <= c && c <= 'Z' {
        ((c as u32) + 32) as char
    } else {
        c
    }
}

/// `s` with its ASCII capitals in lower case.
pub open spec fn lower(s: Seq<char>) -> Seq<char> {
    s.map_values(|c: char| ascii_lower(c))
}

pub(crate) fn lower_chars(v: &[char]) -> (r: Vec<char>)
    ensures
        r@ == lower(v@),
{
    let mut out: Vec<char> = Vec::new();
    let mut i: usize = 0;
    while i < v.len()
        invariant
            i <= v.len(),
            out@ =~= lower(v@.take(i as int)),
        decreases v.len() - i,
    {
        let c = v[i];
        let l = if 'A' <= c && c <= 'Z' {
            let b = (c as u8) + 32;
            b as char
        } else {
            c
        };
        out.push(l);
        i = i + 1;
    }
    assert(v@.take(i as int) =~= v@);
    out
}

/// The modifiers named before the key, added to the ones already seen;
/// `None` when one of them is not a modifier.
pub open spec fn modifier_flags(mods: Seq<Seq<char>>, ctrl: bool, alt: bool, shift: bool) -> Option<
    (bool, bool, bool),
>
    decreases mods.len(),
{
    if mods.len() == 0 {
        Some((ctrl, alt, shift))
    } else {
        let m = lower(mods[0]);
        if m == "c"@ || m == "ctrl"@ || m == "control"@ {
            modifier_flags(mods.drop_first(), true, alt, shift)
        } else if m == "m"@ || m == "meta"@ || m == "alt"@ {
            modifier_flags(mods.drop_first(), ctrl, true, shift)
        } else if m == "s"@ || m == "shift"@ {
            modifier_flags(mods.drop_first(), ctrl, alt, true)
        } else {
            None
        }
    }
}

/// The code of a key name: a named key in any case, or one printable
/// ASCII character.
pub open spec fn key_code_spec(key: Seq<char>) -> Option<KeyCode> {
    let k = lower(key);
    if k == "space"@ {
        Some(KeyCode::Byte(32))
    } else if k == "tab"@ {
        Some(KeyCode::Byte(9))
    } else if k == "enter"@ {
        Some(KeyCode::Byte(13))
    } else if k == "escape"@ || k == "esc"@ {
        Some(KeyCode::Byte(27))
    } else if k == "left"@ {
        Some(KeyCode::Left)
    } else if k == "down"@ {
        Some(KeyCode::Down)
    } else if k == "up"@ {
        Some(KeyCode::Up)
    } else if k == "right"@ {
        Some(KeyCode::Right)
    } else if key.len() == 1 && 0x21 <= (key[0] as u32) && (key[0] as u32) <= 0x7e {
        Some(KeyCode::Byte(key[0] as u8))
    } else {
        None
    }
}

/// The message for a key that cannot be parsed.
pub open spec fn invalid_key_text(input: Seq<char>) -> Seq<char> {
    "invalid key "@ + debug_quoted(input)
        + "; use a printable key, Space, Tab, Enter, Escape, Left, Down, Up, Right, C-<letter>, C-<arrow>, or M-<key>"@
}

/// Whether a byte is an ASCII letter.
pub open spec fn is_alpha(b: u8) -> bool {
    (65 <= b && b <= 90) || (97 <= b && b <= 122)
}

/// The keystroke a key name stands for, or why it is refused: the name is
/// trimmed and split on `-`; the pieces before the last are modifiers, the
/// last is the key; with Ctrl a letter becomes its control byte and only
/// letters and arrows are allowed.
pub open spec fn parse_key_spec(input: Seq<char>) -> Result<KeyStroke, Seq<char>> {
    let t = trim(input);
    if t.len() == 0 {
        Err("key must not be empty"@)
    } else {
        let parts = split(t, '-');
        match modifier_flags(parts.drop_last(), false, false, false) {
            None => Err(invalid_key_text(t)),
            Some((ctrl, alt, shift)) => match key_code_spec(parts.last()) {
                None => Err(invalid_key_text(t)),
                Some(code) => if ctrl {
                    match code {
                        KeyCode::Byte(b) => if is_alpha(b) {
                            let l: u8 = if b <= 90 {
                                (b + 32) as u8
                            } else {
                                b
                            };
                            Ok(KeyStroke { code: KeyCode::Byte((l - 96) as u8), ctrl, alt, shift })
                        } else {
                            Err(invalid_key_text(t))
                        },
                        _ => Ok(KeyStroke { code, ctrl, alt, shift }),
                    }
                } else {
                    Ok(KeyStroke { code, ctrl, alt, shift })
                },
            },
        }
    }
}

fn invalid_key(input: &[char]) -> (r: String)
    ensures
        r@ == invalid_key_text(input@),
{
    let quoted = debug_quote(string_from_chars(input).as_str());
    let head = concat_str("invalid key ", quoted.as_str());
    concat_str(
        head.as_str(),
        "; use a printable key, Space, Tab, Enter, Escape, Left, Down, Up, Right, C-<letter>, C-<arrow>, or M-<key>",
    )
}

fn key_code(key: &[char]) -> (r: Option<KeyCode>)
    ensures
        r == key_code_spec(key@),
{
    let k = lower_chars(key);
    if chars_eq_str(&k, "space") {
        Some(KeyCode::Byte(32))
    } else if chars_eq_str(&k, "tab") {
        Some(KeyCode::Byte(9))
    } else if chars_eq_str(&k, "enter") {
        Some(KeyCode::Byte(13))
    } else if chars_eq_str(&k, "escape") || chars_eq_str(&k, "esc") {
        Some(KeyCode::Byte(27))
    } else if chars_eq_str(&k, "left") {
        Some(KeyCode::Left)
    } else if chars_eq_str(&k, "down") {
        Some(KeyCode::Down)
    } else if chars_eq_str(&k, "up") {
        Some(KeyCode::Up)
    } else if chars_eq_str(&k, "right") {
        Some(KeyCode::Right)
    } else if key.len() == 1 && 0x21 <= (key[0] as u32) && (key[0] as u32) <= 0x7e {
        Some(KeyCode::Byte(key[0] as u8))
    } else {
        None
    }
}

/// Parses a key name such as `C-b`, `M-Left` or `Space`.
pub fn parse_key_stroke(input: &str) -> (r: Result<KeyStroke, String>)
    ensures
        match parse_key_spec(input@) {
            Ok(k) => r == Ok::<KeyStroke, String>(k),
            Err(e) => r matches Err(m) && m@ == e,
        },
{
    let all = chars_of(input);
    let t = trim_chars(&all);
    if t.len() == 0 {
        return Err(String::from_str("key must not be empty"));
    }
    let parts = split_chars(&t, '-');
    let ghost pv = split(t@, '-');
    proof {
        crate::text::lemma_split_nonempty(t@, '-');
        assert(pv.len() == parts@.len());
    }
    let last = parts.len() - 1;
    let mut ctrl = false;
    let mut alt = false;
    let mut shift = false;
    let mut i: usize = 0;
    let ghost mods = pv.drop_last();
    assert(mods.skip(0) =~= mods);
    while i < last
        invariant
            i <= last,
            last + 1 == parts@.len() == pv.len(),
            mods == pv.drop_last(),
            pv == split(t@, '-'),
            t@ == trim(input@),
            t@.len() > 0,
            forall|k: int| 0 <= k < parts@.len() ==> (#[trigger] parts@[k])@ == pv[k],
            modifier_flags(mods, false, false, false) == modifier_flags(
                mods.skip(i as int),
                ctrl,
                alt,
                shift,
            ),
        decreases last - i,
    {
        let m = lower_chars(&parts[i]);
        proof {
            assert(mods.skip(i as int)[0] == parts@[i as int]@);
            assert(mods.skip(i as int).drop_first() =~= mods.skip(i + 1));
        }
        if chars_eq_str(&m, "c") || chars_eq_str(&m, "ctrl") || chars_eq_str(&m, "control") {
            ctrl = true;
        } else if chars_eq_str(&m, "m") || chars_eq_str(&m, "meta") || chars_eq_str(&m, "alt") {
            alt = true;
        } else if chars_eq_str(&m, "s") || chars_eq_str(&m, "shift") {
            shift = true;
        } else {
            assert(modifier_flags(mods.skip(i as int), ctrl, alt, shift) == None::<(bool, bool, bool)>);
            return Err(invalid_key(&t));
        }
        i = i + 1;
    }
    proof {
        assert(mods.skip(i as int) =~= Seq::<Seq<char>>::empty());
        assert(parts@[last as int]@ == pv.last());
    }
    let code = match key_code(&parts[last]) {
        Some(c) => c,
        None => {
            return Err(invalid_key(&t));
        },
    };
    if ctrl {
        match code {
            KeyCode::Byte(b) => {
                if (65 <= b && b <= 90) || (97 <= b && b <= 122) {
                    let l: u8 = if b <= 90 {
                        b + 32
                    } else {
                        b
                    };
                    return Ok(KeyStroke { code: KeyCode::Byte(l - 96), ctrl, alt, shift });
                } else {
                    return Err(invalid_key(&t));
                }
            },
            _ => {},
        }
    }
    Ok(KeyStroke { code, ctrl, alt, shift })
}

/// The name of a key's code: `Space`, `Tab`, `Enter`, `Escape`, an arrow,
/// the letter of a control byte under Ctrl, or the character itself.
pub open spec fn code_name(code: KeyCode, ctrl: bool) -> Seq<char> {
    match code {
        KeyCode::Byte(b) => if b == 32 {
            "Space"@
        } else if b == 9 {
            "Tab"@
        } else if b == 13 {
            "Enter"@
        } else if b == 27 {
            "Escape"@
        } else if (b < 32 || b == 127) && ctrl {
            seq![((b + 96) as u8) as char]
        } else {
            seq![b as char]
        },
        KeyCode::Left => "Left"@,
        KeyCode::Down => "Down"@,
        KeyCode::Up => "Up"@,
        KeyCode::Right => "Right"@,
    }
}

/// The canonical spelling of a keystroke: `C-`, `M-` and `S-` for its
/// modifiers, in that order, then the name of its code.
pub open spec fn canonical_spec(key: KeyStroke) -> Seq<char> {
    (if key.ctrl {
        "C-"@
    } else {
        Seq::empty()
    }) + (if key.alt {
        "M-"@
    } else {
        Seq::empty()
    }) + (if key.shift {
        "S-"@
    } else {
        Seq::empty()
    }) + code_name(key.code, key.ctrl)
}

/// The canonical spelling of a keystroke.
pub fn canonical_key_stroke(key: KeyStroke) -> (r: String)
    ensures
        r@ == canonical_spec(key),
{
    let mut output = String::new();
    proof {
        assert(output@ =~= Seq::<char>::empty());
    }
    if key.ctrl {
        output = concat_str(output.as_str(), "C-");
    }
    if key.alt {
        output = concat_str(output.as_str(), "M-");
    }
    if key.shift {
        output = concat_str(output.as_str(), "S-");
    }
    let ghost prefix = output@;
    match key.code {
        KeyCode::Byte(b) => {
            if b == 32 {
                output = concat_str(output.as_str(), "Space");
            } else if b == 9 {
                output = concat_str(output.as_str(), "Tab");
            } else if b == 13 {
                output = concat_str(output.as_str(), "Enter");
            } else if b == 27 {
                output = concat_str(output.as_str(), "Escape");
            } else if (b < 32 || b == 127) && key.ctrl {
                let letter = (b + 96) as char;
                push_char(&mut output, letter);
            } else {
                push_char(&mut output, b as char);
            }
        },
        KeyCode::Left => {
            output = concat_str(output.as_str(), "Left");
        },
        KeyCode::Down => {
            output = concat_str(output.as_str(), "Down");
        },
        KeyCode::Up => {
            output = concat_str(output.as_str(), "Up");
        },
        KeyCode::Right => {
            output = concat_str(output.as_str(), "Right");
        },
    }
    proof {
        assert(output@ =~= canonical_spec(key));
    }
    output
}

/// The canonical spelling of a key name, or why it is refused.
pub open spec fn canonical_key_spec(input: Seq<char>) -> Result<Seq<char>, Seq<char>> {
    match parse_key_spec(input) {
        Ok(k) => Ok(canonical_spec(k)),
        Err(e) => Err(e),
    }
}

/// The canonical spelling of a key name.
pub fn canonical_key(input: &str) -> (r: Result<String, String>)
    ensures
        match canonical_key_spec(input@) {
            Ok(s) => r matches Ok(o) && o@ == s,
            Err(e) => r matches Err(m) && m@ == e,
        },
{
    match parse_key_stroke(input) {
        Ok(k) => Ok(canonical_key_stroke(k)),
        Err(e) => Err(e),
    }
}

/// The byte a prefix key sends, or why it cannot be a prefix: it must be a
/// byte without Alt or Shift.
pub open spec fn key_byte_spec(key: Seq<char>) -> Result<u8, Seq<char>> {
    match parse_key_spec(key) {
        Ok(k) => match k.code {
            KeyCode::Byte(b) => if !k.alt && !k.shift {
                Ok(b)
            } else {
                Err("invalid key "@ + debug_quoted(key) + "; prefix must be a byte-backed key"@)
            },
            _ => Err("invalid key "@ + debug_quoted(key) + "; prefix must be a byte-backed key"@),
        },
        Err(e) => Err(e),
    }
}

/// The byte a prefix key sends.
pub fn key_name_to_byte(key: &str) -> (r: Result<u8, String>)
    ensures
        match key_byte_spec(key@) {
            Ok(b) => r == Ok::<u8, String>(b),
            Err(e) => r matches Err(m) && m@ == e,
        },
{
    let stroke = match parse_key_stroke(key) {
        Ok(k) => k,
        Err(e) => {
            return Err(e);
        },
    };
    match stroke.code {
        KeyCode::Byte(b) => {
            if !stroke.alt && !stroke.shift {
                return Ok(b);
            }
        },
        _ => {},
    }
    let head = concat_str("invalid key ", debug_quote(key).as_str());
    Err(concat_str(head.as_str(), "; prefix must be a byte-backed key"))
}

/// The prefix-key bindings a server starts with: key, then action.
pub open spec fn default_bindings_spec() -> Seq<(Seq<char>, Seq<char>)> {
    seq![
        ("C-b"@, "send-prefix"@),
        ("d"@, "detach-client"@),
        ("D"@, "detach-client"@),
        ("["@, "copy-mode"@),
        ("o"@, "next-pane"@),
        ("q"@, "display-panes"@),
        ("?"@, "show-help"@),
        (":"@, "command-prompt"@),
        ("%"@, "split-window -h"@),
        ("c"@, "new-window"@),
        ("n"@, "next-window"@),
        ("p"@, "previous-window"@),
        ("\""@, "split-window -v"@),
        ("h"@, "select-pane -L"@),
        ("j"@, "select-pane -D"@),
        ("k"@, "select-pane -U"@),
        ("l"@, "select-pane -R"@),
        ("Left"@, "select-pane -L"@),
        ("Down"@, "select-pane -D"@),
        ("Up"@, "select-pane -U"@),
        ("Right"@, "select-pane -R"@),
        ("M-h"@, "select-pane -L"@),
        ("M-j"@, "select-pane -D"@),
        ("M-k"@, "select-pane -U"@),
        ("M-l"@, "select-pane -R"@),
        ("M-Left"@, "select-pane -L"@),
        ("M-Down"@, "select-pane -D"@),
        ("M-Up"@, "select-pane -U"@),
        ("M-Right"@, "select-pane -R"@),
        ("H"@, "resize-pane -L"@),
        ("J"@, "resize-pane -D"@),
        ("K"@, "resize-pane -U"@),
        ("L"@, "resize-pane -R"@),
        ("C-Left"@, "resize-pane -L 1"@),
        ("C-Down"@, "resize-pane -D 1"@),
        ("C-Up"@, "resize-pane -U 1"@),
        ("C-Right"@, "resize-pane -R 1"@),
        ("x"@, "kill-pane"@),
        ("z"@, "zoom-pane"@),
    ]
}

/// The prefix-key bindings a server starts with.
pub fn default_key_bindings() -> (r: Vec<KeyBinding>)
    ensures
        binding_pairs(r@) == default_bindings_spec(),
{
    let mut out: Vec<KeyBinding> = Vec::new();
    push_binding(&mut out, "C-b", "send-prefix");
    push_binding(&mut out, "d", "detach-client");
    push_binding(&mut out, "D", "detach-client");
    push_binding(&mut out, "[", "copy-mode");
    push_binding(&mut out, "o", "next-pane");
    push_binding(&mut out, "q", "display-panes");
    push_binding(&mut out, "?", "show-help");
    push_binding(&mut out, ":", "command-prompt");
    push_binding(&mut out, "%", "split-window -h");
    push_binding(&mut out, "c", "new-window");
    push_binding(&mut out, "n", "next-window");
    push_binding(&mut out, "p", "previous-window");
    push_binding(&mut out, "\"", "split-window -v");
    push_binding(&mut out, "h", "select-pane -L");
    push_binding(&mut out, "j", "select-pane -D");
    push_binding(&mut out, "k", "select-pane -U");
    push_binding(&mut out, "l", "select-pane -R");
    push_binding(&mut out, "Left", "select-pane -L");
    push_binding(&mut out, "Down", "select-pane -D");
    push_binding(&mut out, "Up", "select-pane -U");
    push_binding(&mut out, "Right", "select-pane -R");
    push_binding(&mut out, "M-h", "select-pane -L");
    push_binding(&mut out, "M-j", "select-pane -D");
    push_binding(&mut out, "M-k", "select-pane -U");
    push_binding(&mut out, "M-l", "select-pane -R");
    push_binding(&mut out, "M-Left", "select-pane -L");
    push_binding(&mut out, "M-Down", "select-pane -D");
    push_binding(&mut out, "M-Up", "select-pane -U");
    push_binding(&mut out, "M-Right", "select-pane -R");
    push_binding(&mut out, "H", "resize-pane -L");
    push_binding(&mut out, "J", "resize-pane -D");
    push_binding(&mut out, "K", "resize-pane -U");
    push_binding(&mut out, "L", "resize-pane -R");
    push_binding(&mut out, "C-Left", "resize-pane -L 1");
    push_binding(&mut out, "C-Down", "resize-pane -D 1");
    push_binding(&mut out, "C-Up", "resize-pane -U 1");
    push_binding(&mut out, "C-Right", "resize-pane -R 1");
    push_binding(&mut out, "x", "kill-pane");
    push_binding(&mut out, "z", "zoom-pane");
    assert(binding_pairs(out@) =~= default_bindings_spec());
    out
}

/// The key and action of each binding, in order.
pub open spec fn binding_pairs(b: Seq<KeyBinding>) -> Seq<(Seq<char>, Seq<char>)> {
    b.map_values(|k: KeyBinding| (k.key@, k.command@))
}

fn push_binding(out: &mut Vec<KeyBinding>, key: &str, command: &str)
    ensures
        binding_pairs(final(out)@) == binding_pairs(old(out)@).push((key@, command@)),
{
    out.push(KeyBinding { key: String::from_str(key), command: String::from_str(command) });
    proof {
        assert(binding_pairs(out@) =~= binding_pairs(old(out)@).push((key@, command@)));
    }
}

/// The name and value of each option, in order.
pub open spec fn option_pairs(o: Seq<OptionEntry>) -> Seq<(Seq<char>, Seq<char>)> {
    o.map_values(|e: OptionEntry| (e.name@, e.value@))
}

/// The options a server starts with: the prefix key `C-b`, and the status
/// hints on.
pub fn default_options() -> (r: Vec<OptionEntry>)
    ensures
        option_pairs(r@) == seq![("prefix"@, "C-b"@), ("status-hints"@, "on"@)],
{
    let mut out: Vec<OptionEntry> = Vec::new();
    out.push(
        OptionEntry { name: String::from_str(OPTION_PREFIX), value: String::from_str(DEFAULT_PREFIX_KEY) },
    );
    out.push(
        OptionEntry { name: String::from_str(OPTION_STATUS_HINTS), value: String::from_str("on") },
    );
    assert(option_pairs(out@) =~= seq![("prefix"@, "C-b"@), ("status-hints"@, "on"@)]);
    out
}


/// Whether `c` is one of the live actions a key may be bound to.
pub open spec fn is_binding_action(c: Seq<char>) -> bool {
    c == "detach-client"@
        || c == "copy-mode"@
        || c == "display-panes"@
        || c == "show-help"@
        || c == "command-prompt"@
        || c == "next-pane"@
        || c == "new-window"@
        || c == "next-window"@
        || c == "previous-window"@
        || c == "split-window -h"@
        || c == "split-window -v"@
        || c == "select-pane -L"@
        || c == "select-pane -D"@
        || c == "select-pane -U"@
        || c == "select-pane -R"@
        || c == "resize-pane -L"@
        || c == "resize-pane -D"@
        || c == "resize-pane -U"@
        || c == "resize-pane -R"@
        || c == "kill-pane"@
        || c == "zoom-pane"@
}

fn binding_action(c: &[char]) -> (r: bool)
    ensures
        r == is_binding_action(c@),
{
    chars_eq_str(c, "detach-client")
        || chars_eq_str(c, "copy-mode")
        || chars_eq_str(c, "display-panes")
        || chars_eq_str(c, "show-help")
        || chars_eq_str(c, "command-prompt")
        || chars_eq_str(c, "next-pane")
        || chars_eq_str(c, "new-window")
        || chars_eq_str(c, "next-window")
        || chars_eq_str(c, "previous-window")
        || chars_eq_str(c, "split-window -h")
        || chars_eq_str(c, "split-window -v")
        || chars_eq_str(c, "select-pane -L")
        || chars_eq_str(c, "select-pane -D")
        || chars_eq_str(c, "select-pane -U")
        || chars_eq_str(c, "select-pane -R")
        || chars_eq_str(c, "resize-pane -L")
        || chars_eq_str(c, "resize-pane -D")
        || chars_eq_str(c, "resize-pane -U")
        || chars_eq_str(c, "resize-pane -R")
        || chars_eq_str(c, "kill-pane")
        || chars_eq_str(c, "zoom-pane")
}

/// The words of `s`: its runs of non-whitespace characters, in order.
pub open spec fn words(s: Seq<char>) -> Seq<Seq<char>>
    decreases s.len(),
{
    if s.len() == 0 {
        Seq::empty()
    } else {
        let w = words(s.drop_last());
        let c = s.last();
        if is_space(c) {
            w
        } else if s.len() >= 2 && !is_space(s[s.len() - 2]) {
            w.update(w.len() - 1, w.last().push(c))
        } else {
            w.push(seq![c])
        }
    }
}

pub(crate) fn split_words(v: &[char]) -> (r: Vec<Vec<char>>)
    ensures
        r@.len() == words(v@).len(),
        forall|k: int| 0 <= k < r@.len() ==> (#[trigger] r@[k])@ == words(v@)[k],
{
    let mut done: Vec<Vec<char>> = Vec::new();
    let mut cur: Vec<char> = Vec::new();
    let mut i: usize = 0;
    while i < v.len()
        invariant
            i <= v.len(),
            ({
                let w = words(v@.take(i as int));
                if cur@.len() > 0 {
                    &&& w.len() == done@.len() + 1
                    &&& w.last() == cur@
                    &&& forall|k: int| 0 <= k < done@.len() ==> (#[trigger] done@[k])@ == w[k]
                } else {
                    &&& w.len() == done@.len()
                    &&& forall|k: int| 0 <= k < done@.len() ==> (#[trigger] done@[k])@ == w[k]
                }
            }),
            cur@.len() > 0 <==> (i > 0 && !is_space(v@[i - 1])),
        decreases v.len() - i,
    {
        let c = v[i];
        proof {
            assert(v@.take(i + 1).drop_last() =~= v@.take(i as int));
            assert(v@.take(i + 1).last() == c);
            if i > 0 {
                assert(v@.take(i + 1)[i - 1] == v@[i - 1]);
            }
        }
        if is_space_char(c) {
            if cur.len() > 0 {
                done.push(cur);
                cur = Vec::new();
            }
        } else {
            cur.push(c);
        }
        i = i + 1;
    }
    if cur.len() > 0 {
        done.push(cur);
    }
    assert(v@.take(i as int) =~= v@);
    done
}

fn join_words(parts: &Vec<Vec<char>>) -> (r: Vec<char>)
    ensures
        r@ == join(parts@.map_values(|p: Vec<char>| p@), ' '),
{
    let ghost pv = parts@.map_values(|p: Vec<char>| p@);
    let mut out: Vec<char> = Vec::new();
    let mut k: usize = 0;
    while k < parts.len()
        invariant
            k <= parts.len(),
            pv == parts@.map_values(|p: Vec<char>| p@),
            out@ == join(pv.take(k as int), ' '),
        decreases parts.len() - k,
    {
        proof {
            assert(pv.take(k + 1).drop_last() =~= pv.take(k as int));
            assert(pv.take(k + 1).last() == parts@[k as int]@);
        }
        if k > 0 {
            out.push(' ');
        } else {
            assert(pv.take(1) =~= seq![parts@[0]@]);
        }
        let mut j: usize = 0;
        let ghost before = out@;
        while j < parts[k].len()
            invariant
                k < parts.len(),
                j <= parts@[k as int].len(),
                out@ == before + parts@[k as int]@.take(j as int),
            decreases parts@[k as int].len() - j,
        {
            out.push(parts[k][j]);
            j = j + 1;
            assert(out@ =~= before + parts@[k as int]@.take(j as int));
        }
        assert(parts@[k as int]@.take(j as int) =~= parts@[k as int]@);
        if k == 0 {
            assert(out@ =~= parts@[0]@);
        }
        k = k + 1;
    }
    assert(pv.take(k as int) =~= pv);
    out
}

/// The index of the last `c` in `s`.
pub open spec fn last_index_of(s: Seq<char>, c: char) -> Option<int>
    decreases s.len(),
{
    if s.len() == 0 {
        None
    } else if s.last() == c {
        Some(s.len() - 1)
    } else {
        last_index_of(s.drop_last(), c)
    }
}

fn find_last(v: &[char], c: char) -> (r: Option<usize>)
    ensures
        match r {
            Some(k) => last_index_of(v@, c) == Some(k as int) && k < v.len(),
            None => last_index_of(v@, c) is None,
        },
{
    let mut i = v.len();
    assert(v@.take(i as int) =~= v@);
    while i > 0
        invariant
            i <= v.len(),
            last_index_of(v@, c) == last_index_of(v@.take(i as int), c),
        decreases i,
    {
        assert(v@.take(i as int).drop_last() =~= v@.take(i - 1));
        if v[i - 1] == c {
            return Some(i - 1);
        }
        i = i - 1;
    }
    None
}

/// Whether `prefix` begins `s`.
pub open spec fn begins_with(s: Seq<char>, prefix: Seq<char>) -> bool {
    prefix.len() <= s.len() && s.take(prefix.len() as int) == prefix
}

/// The message for an action a key cannot be bound to.
pub open spec fn unsupported_binding_text(command: Seq<char>) -> Seq<char> {
    "unsupported binding command "@ + debug_quoted(command)
        + "; supported live actions include send-prefix, detach-client, copy-mode, command-prompt, split-window -h|-v, select-pane -L|-D|-U|-R, resize-pane -L|-D|-U|-R [amount], next-pane, new-window, next-window, previous-window, kill-pane, and zoom-pane"@
}

/// The action a key is bound to, with its whitespace collapsed to single
/// spaces, or why it is refused: it must be `send-prefix`, a live action,
/// or a resize with a positive amount.
pub open spec fn binding_command_spec(command: Seq<char>) -> Result<Seq<char>, Seq<char>> {
    let normalized = join(words(command), ' ');
    if normalized.len() == 0 {
        Err("binding command must not be empty"@)
    } else if normalized == "send-prefix"@ || is_binding_action(normalized) {
        Ok(normalized)
    } else {
        match last_index_of(normalized, ' ') {
            Some(k) => {
                let base = normalized.take(k);
                let amount = normalized.skip(k + 1);
                if is_binding_action(base) && begins_with(base, "resize-pane "@) && (
                parse_unsigned(amount, usize::MAX as nat) matches Some(n) && n > 0) {
                    Ok(normalized)
                } else {
                    Err(unsupported_binding_text(command))
                }
            },
            None => Err(unsupported_binding_text(command)),
        }
    }
}

fn begins_with_str(s: &[char], prefix: &str) -> (r: bool)
    ensures
        r == begins_with(s@, prefix@),
{
    let p = chars_of(prefix);
    if p.len() > s.len() {
        return false;
    }
    let mut i: usize = 0;
    while i < p.len()
        invariant
            p.len() <= s.len(),
            p@ == prefix@,
            i <= p.len(),
            forall|j: int| 0 <= j < i ==> s@[j] == p@[j],
        decreases p.len() - i,
    {
        if s[i] != p[i] {
            assert(s@.take(p.len() as int)[i as int] != p@[i as int]);
            return false;
        }
        i = i + 1;
    }
    assert(s@.take(p.len() as int) =~= p@);
    true
}

/// Checks the action a key is bound to and collapses its whitespace.
pub fn validate_binding_command(command: &str) -> (r: Result<String, String>)
    ensures
        match binding_command_spec(command@) {
            Ok(s) => r matches Ok(o) && o@ == s,
            Err(e) => r matches Err(m) && m@ == e,
        },
{
    let chars = chars_of(command);
    let ws = split_words(&chars);
    proof {
        assert(ws@.map_values(|p: Vec<char>| p@) =~= words(command@));
    }
    let normalized = join_words(&ws);
    if normalized.len() == 0 {
        return Err(String::from_str("binding command must not be empty"));
    }
    if chars_eq_str(&normalized, "send-prefix") || binding_action(&normalized) {
        return Ok(string_from_chars(&normalized));
    }
    match find_last(&normalized, ' ') {
        Some(k) => {
            let base = crate::text::sub_chars(&normalized, 0, k);
            let amount = crate::text::sub_chars(&normalized, k + 1, normalized.len());
            assert(base@ =~= normalized@.take(k as int));
            assert(amount@ =~= normalized@.skip(k + 1));
            if binding_action(&base) && begins_with_str(&base, "resize-pane ") {
                match parse_usize_chars(&amount) {
                    Some(n) => {
                        if n > 0 {
                            return Ok(string_from_chars(&normalized));
                        }
                    },
                    None => {},
                }
            }
        },
        None => {},
    }
    let head = concat_str("unsupported binding command ", debug_quote(command).as_str());
    Err(
        concat_str(
            head.as_str(),
            "; supported live actions include send-prefix, detach-client, copy-mode, command-prompt, split-window -h|-v, select-pane -L|-D|-U|-R, resize-pane -L|-D|-U|-R [amount], next-pane, new-window, next-window, previous-window, kill-pane, and zoom-pane",
        ),
    )
}

/// The value an option takes, or why it is refused: the prefix must be a
/// byte-backed key and is stored canonically; the status hints are `on` or
/// `off`; no other option exists.
pub open spec fn option_value_spec(name: Seq<char>, value: Seq<char>) -> Result<Seq<char>, Seq<char>> {
    if name == "prefix"@ {
        match key_byte_spec(value) {
            Err(e) => Err(e),
            Ok(_) => canonical_key_spec(value),
        }
    } else if name == "status-hints"@ {
        if value == "on"@ || value == "off"@ {
            Ok(value)
        } else {
            Err("status-hints must be on or off"@)
        }
    } else {
        Err("unknown option "@ + debug_quoted(name))
    }
}

/// Checks a value for a runtime option.
pub fn validate_option_value(name: &str, value: &str) -> (r: Result<String, String>)
    ensures
        match option_value_spec(name@, value@) {
            Ok(s) => r matches Ok(o) && o@ == s,
            Err(e) => r matches Err(m) && m@ == e,
        },
{
    if crate::text::str_eq(name, OPTION_PREFIX) {
        match key_name_to_byte(value) {
            Err(e) => Err(e),
            Ok(_) => canonical_key(value),
        }
    } else if crate::text::str_eq(name, OPTION_STATUS_HINTS) {
        if crate::text::str_eq(value, "on") || crate::text::str_eq(value, "off") {
            Ok(String::from_str(value))
        } else {
            Err(String::from_str("status-hints must be on or off"))
        }
    } else {
        Err(concat_str("unknown option ", debug_quote(name).as_str()))
    }
}

} // verus!
