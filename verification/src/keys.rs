//! Keys as an attached client reads them from the terminal: single bytes,
//! Alt-held keys, arrow keys with modifiers, mouse reports, and the
//! bindings that turn keys into actions.

use vstd::prelude::*;
use vstd::string::*;
use vstd::utf8::{decode_utf8, valid_utf8};
use crate::config::{
    binding_pairs, key_byte_spec, key_name_to_byte, parse_key_spec, parse_key_stroke, words, split_words,
    KeyCode, KeyStroke,
};
use crate::protocol::{KeyBinding, PaneResizeDirection};
use crate::text::{chars_eq_str, chars_of, parse_unsigned, parse_unsigned_chars, split, split_chars, string_from_utf8};

verus! {

/// How many cells a resize key moves a border when its binding names no
/// amount.
pub const ATTACH_RESIZE_AMOUNT: usize = 5;

/// An action on panes or windows that a key can ask for.
#[derive(Debug, Clone, Copy, PartialEq, Eq, Structural)]
pub enum PaneCommand {
    NewWindow,
    NextWindow,
    PreviousWindow,
    SplitRight,
    SplitDown,
    FocusLeft,
    FocusDown,
    FocusUp,
    FocusRight,
    Resize { direction: PaneResizeDirection, amount: usize },
    Close,
    ToggleZoom,
}

/// What a bound key does.
#[derive(Debug, Clone, Copy, PartialEq, Eq, Structural)]
pub enum LiveKeyAction {
    SendPrefix,
    Detach,
    CopyMode,
    SelectNextPane,
    ShowPaneNumbers,
    ShowHelp,
    CommandPrompt,
    PaneCommand(PaneCommand),
}

/// The action a `resize-pane <-L|-D|-U|-R> [amount]` command names: the
/// amount defaults to five and must be positive.
pub open spec fn resize_action_spec(command: Seq<char>) -> Option<LiveKeyAction> {
    let w = words(command);
    if w.len() < 2 || w[0] != "resize-pane"@ {
        None
    } else {
        let direction = if w[1] == "-L"@ {
            Some(PaneResizeDirection::Left)
        } else if w[1] == "-D"@ {
            Some(PaneResizeDirection::Down)
        } else if w[1] == "-U"@ {
            Some(PaneResizeDirection::Up)
        } else if w[1] == "-R"@ {
            Some(PaneResizeDirection::Right)
        } else {
            None
        };
        match direction {
            None => None,
            Some(direction) => {
                let amount = if w.len() >= 3 {
                    parse_unsigned(w[2], usize::MAX as nat)
                } else {
                    Some(ATTACH_RESIZE_AMOUNT as nat)
                };
                match amount {
                    None => None,
                    Some(a) => if a == 0 || w.len() > 3 {
                        None
                    } else {
                        Some(
                            LiveKeyAction::PaneCommand(
                                PaneCommand::Resize { direction, amount: a as usize },
                            ),
                        )
                    },
                }
            },
        }
    }
}

/// The action a binding's command names, if a key can carry it.
pub open spec fn key_action_spec(command: Seq<char>) -> Option<LiveKeyAction> {
    match resize_action_spec(command) {
        Some(a) => Some(a),
        None => if command == "send-prefix"@ {
            Some(LiveKeyAction::SendPrefix)
        } else if command == "detach-client"@ {
            Some(LiveKeyAction::Detach)
        } else if command == "copy-mode"@ {
            Some(LiveKeyAction::CopyMode)
        } else if command == "next-pane"@ {
            Some(LiveKeyAction::SelectNextPane)
        } else if command == "display-panes"@ {
            Some(LiveKeyAction::ShowPaneNumbers)
        } else if command == "show-help"@ {
            Some(LiveKeyAction::ShowHelp)
        } else if command == "command-prompt"@ {
            Some(LiveKeyAction::CommandPrompt)
        } else if command == "new-window"@ {
            Some(LiveKeyAction::PaneCommand(PaneCommand::NewWindow))
        } else if command == "next-window"@ {
            Some(LiveKeyAction::PaneCommand(PaneCommand::NextWindow))
        } else if command == "previous-window"@ {
            Some(LiveKeyAction::PaneCommand(PaneCommand::PreviousWindow))
        } else if command == "split-window -h"@ {
            Some(LiveKeyAction::PaneCommand(PaneCommand::SplitRight))
        } else if command == "split-window -v"@ {
            Some(LiveKeyAction::PaneCommand(PaneCommand::SplitDown))
        } else if command == "select-pane -L"@ {
            Some(LiveKeyAction::PaneCommand(PaneCommand::FocusLeft))
        } else if command == "select-pane -D"@ {
            Some(LiveKeyAction::PaneCommand(PaneCommand::FocusDown))
        } else if command == "select-pane -U"@ {
            Some(LiveKeyAction::PaneCommand(PaneCommand::FocusUp))
        } else if command == "select-pane -R"@ {
            Some(LiveKeyAction::PaneCommand(PaneCommand::FocusRight))
        } else if command == "kill-pane"@ {
            Some(LiveKeyAction::PaneCommand(PaneCommand::Close))
        } else if command == "zoom-pane"@ {
            Some(LiveKeyAction::PaneCommand(PaneCommand::ToggleZoom))
        } else {
            None
        },
    }
}

fn resize_live_key_action(command: &str) -> (r: Option<LiveKeyAction>)
    ensures
        r == resize_action_spec(command@),
{
    let v = chars_of(command);
    let w = split_words(v.as_slice());
    if w.len() < 2 || !chars_eq_str(w[0].as_slice(), "resize-pane") {
        return None;
    }
    let direction = if chars_eq_str(w[1].as_slice(), "-L") {
        PaneResizeDirection::Left
    } else if chars_eq_str(w[1].as_slice(), "-D") {
        PaneResizeDirection::Down
    } else if chars_eq_str(w[1].as_slice(), "-U") {
        PaneResizeDirection::Up
    } else if chars_eq_str(w[1].as_slice(), "-R") {
        PaneResizeDirection::Right
    } else {
        return None;
    };
    let amount = if w.len() >= 3 {
        match crate::text::parse_usize_chars(w[2].as_slice()) {
            Some(a) => a,
            None => return None,
        }
    } else {
        ATTACH_RESIZE_AMOUNT
    };
    if amount == 0 || w.len() > 3 {
        return None;
    }
    Some(LiveKeyAction::PaneCommand(PaneCommand::Resize { direction, amount }))
}

/// The action a binding's command names, if a key can carry it.
pub fn live_key_action(command: &str) -> (r: Option<LiveKeyAction>)
    ensures
        r == key_action_spec(command@),
{
    if let Some(action) = resize_live_key_action(command) {
        return Some(action);
    }
    let c = chars_of(command);
    let c = c.as_slice();
    if chars_eq_str(c, "send-prefix") {
        Some(LiveKeyAction::SendPrefix)
    } else if chars_eq_str(c, "detach-client") {
        Some(LiveKeyAction::Detach)
    } else if chars_eq_str(c, "copy-mode") {
        Some(LiveKeyAction::CopyMode)
    } else if chars_eq_str(c, "next-pane") {
        Some(LiveKeyAction::SelectNextPane)
    } else if chars_eq_str(c, "display-panes") {
        Some(LiveKeyAction::ShowPaneNumbers)
    } else if chars_eq_str(c, "show-help") {
        Some(LiveKeyAction::ShowHelp)
    } else if chars_eq_str(c, "command-prompt") {
        Some(LiveKeyAction::CommandPrompt)
    } else if chars_eq_str(c, "new-window") {
        Some(LiveKeyAction::PaneCommand(PaneCommand::NewWindow))
    } else if chars_eq_str(c, "next-window") {
        Some(LiveKeyAction::PaneCommand(PaneCommand::NextWindow))
    } else if chars_eq_str(c, "previous-window") {
        Some(LiveKeyAction::PaneCommand(PaneCommand::PreviousWindow))
    } else if chars_eq_str(c, "split-window -h") {
        Some(LiveKeyAction::PaneCommand(PaneCommand::SplitRight))
    } else if chars_eq_str(c, "split-window -v") {
        Some(LiveKeyAction::PaneCommand(PaneCommand::SplitDown))
    } else if chars_eq_str(c, "select-pane -L") {
        Some(LiveKeyAction::PaneCommand(PaneCommand::FocusLeft))
    } else if chars_eq_str(c, "select-pane -D") {
        Some(LiveKeyAction::PaneCommand(PaneCommand::FocusDown))
    } else if chars_eq_str(c, "select-pane -U") {
        Some(LiveKeyAction::PaneCommand(PaneCommand::FocusUp))
    } else if chars_eq_str(c, "select-pane -R") {
        Some(LiveKeyAction::PaneCommand(PaneCommand::FocusRight))
    } else if chars_eq_str(c, "kill-pane") {
        Some(LiveKeyAction::PaneCommand(PaneCommand::Close))
    } else if chars_eq_str(c, "zoom-pane") {
        Some(LiveKeyAction::PaneCommand(PaneCommand::ToggleZoom))
    } else {
        None
    }
}

/// Whether a key read from the terminal is the key a binding names: the
/// same key and Alt and Shift; Ctrl must agree too unless the bound key is
/// a control byte, which carries Ctrl in itself.
pub open spec fn strokes_match(binding: KeyStroke, input: KeyStroke) -> bool {
    binding.code == input.code && binding.alt == input.alt && binding.shift == input.shift && (
    binding.ctrl == input.ctrl || (binding.code matches KeyCode::Byte(b) && 1 <= b <= 26))
}

/// Whether a key read from the terminal is the key a binding names.
pub fn key_strokes_match(binding: KeyStroke, input: KeyStroke) -> (r: bool)
    ensures
        r == strokes_match(binding, input),
{
    let ctrl_ok = binding.ctrl == input.ctrl || match binding.code {
        KeyCode::Byte(b) => 1 <= b && b <= 26,
        _ => false,
    };
    binding.code == input.code && binding.alt == input.alt && binding.shift == input.shift && ctrl_ok
}

/// The prefix key and the key bindings an attached client acts on.
#[derive(Debug, Clone)]
pub struct LiveControls {
    pub prefix: u8,
    pub bindings: Vec<(KeyStroke, LiveKeyAction)>,
}

/// The bindings whose keys parse and whose commands a key can carry, in
/// order.
pub open spec fn usable_bindings(b: Seq<(Seq<char>, Seq<char>)>) -> Seq<(KeyStroke, LiveKeyAction)>
    decreases b.len(),
{
    if b.len() == 0 {
        Seq::empty()
    } else {
        let done = usable_bindings(b.drop_last());
        let (key, command) = b.last();
        match parse_key_spec(key) {
            Err(_) => done,
            Ok(k) => match key_action_spec(command) {
                None => done,
                Some(a) => done.push((k, a)),
            },
        }
    }
}

/// The prefix byte a key name gives, or C-b when it names none.
pub open spec fn prefix_byte_spec(prefix: Seq<char>) -> u8 {
    match key_byte_spec(prefix) {
        Ok(b) => b,
        Err(_) => 2,
    }
}

/// The first binding for a key, as `action_for_key` finds it.
pub open spec fn action_for_key_spec(bindings: Seq<(KeyStroke, LiveKeyAction)>, key: KeyStroke) -> Option<
    LiveKeyAction,
>
    decreases bindings.len(),
{
    if bindings.len() == 0 {
        None
    } else if strokes_match(bindings[0].0, key) {
        Some(bindings[0].1)
    } else {
        action_for_key_spec(bindings.drop_first(), key)
    }
}

/// The key of the first binding for an action.
pub open spec fn key_for_action_spec(bindings: Seq<(KeyStroke, LiveKeyAction)>, action: LiveKeyAction) -> Option<
    KeyStroke,
>
    decreases bindings.len(),
{
    if bindings.len() == 0 {
        None
    } else if bindings[0].1 == action {
        Some(bindings[0].0)
    } else {
        key_for_action_spec(bindings.drop_first(), action)
    }
}

impl LiveControls {
    /// Controls from a prefix key name and the configured bindings; a
    /// prefix that names no byte falls back to C-b, and bindings that do not
    /// parse or name no key action are left out.
    pub fn from_entries(prefix: &str, bindings: Vec<KeyBinding>) -> (r: LiveControls)
        ensures
            r.prefix == prefix_byte_spec(prefix@),
            r.bindings@ == usable_bindings(binding_pairs(bindings@)),
    {
        let p = match key_name_to_byte(prefix) {
            Ok(b) => b,
            Err(_) => 2u8,
        };
        let ghost bp = binding_pairs(bindings@);
        let mut out: Vec<(KeyStroke, LiveKeyAction)> = Vec::new();
        let mut i: usize = 0;
        while i < bindings.len()
            invariant
                i <= bindings@.len(),
                bp == binding_pairs(bindings@),
                out@ == usable_bindings(bp.take(i as int)),
            decreases bindings.len() - i,
        {
            assert(bp.take(i + 1).drop_last() =~= bp.take(i as int));
            assert(bp.take(i + 1).last() == (bindings@[i as int].key@, bindings@[i as int].command@));
            let b = &bindings[i];
            match parse_key_stroke(b.key.as_str()) {
                Ok(k) => match live_key_action(b.command.as_str()) {
                    Some(a) => {
                        out.push((k, a));
                    },
                    None => {},
                },
                Err(_) => {},
            }
            i += 1;
        }
        assert(bp.take(i as int) =~= bp);
        LiveControls { prefix: p, bindings: out }
    }

    /// The action of the first binding for a key.
    pub fn action_for_key(&self, key: KeyStroke) -> (r: Option<LiveKeyAction>)
        ensures
            r == action_for_key_spec(self.bindings@, key),
    {
        let mut i: usize = 0;
        assert(self.bindings@.skip(0) =~= self.bindings@);
        while i < self.bindings.len()
            invariant
                i <= self.bindings@.len(),
                action_for_key_spec(self.bindings@, key) == action_for_key_spec(
                    self.bindings@.skip(i as int),
                    key,
                ),
            decreases self.bindings.len() - i,
        {
            assert(self.bindings@.skip(i as int).drop_first() =~= self.bindings@.skip(i + 1));
            assert(self.bindings@.skip(i as int)[0] == self.bindings@[i as int]);
            let (k, a) = self.bindings[i];
            if key_strokes_match(k, key) {
                return Some(a);
            }
            i += 1;
        }
        None
    }

    /// The key of the first binding for an action.
    pub fn key_for_action(&self, target: LiveKeyAction) -> (r: Option<KeyStroke>)
        ensures
            r == key_for_action_spec(self.bindings@, target),
    {
        let mut i: usize = 0;
        assert(self.bindings@.skip(0) =~= self.bindings@);
        while i < self.bindings.len()
            invariant
                i <= self.bindings@.len(),
                key_for_action_spec(self.bindings@, target) == key_for_action_spec(
                    self.bindings@.skip(i as int),
                    target,
                ),
            decreases self.bindings.len() - i,
        {
            assert(self.bindings@.skip(i as int).drop_first() =~= self.bindings@.skip(i + 1));
            assert(self.bindings@.skip(i as int)[0] == self.bindings@[i as int]);
            let (k, a) = self.bindings[i];
            if a == target {
                return Some(k);
            }
            i += 1;
        }
        None
    }

}

impl Default for LiveControls {
    /// The default controls: C-b and the default bindings.
    fn default() -> (r: LiveControls)
        ensures
            r.prefix == prefix_byte_spec("C-b"@),
            r.bindings@ == usable_bindings(crate::config::default_bindings_spec()),
    {
        let b = crate::config::default_key_bindings();
        LiveControls::from_entries(crate::config::DEFAULT_PREFIX_KEY, b)
    }
}

/// Whether a byte ends a control sequence (`@` to `~`).
pub open spec fn final_byte(b: u8) -> bool {
    0x40 <= b <= 0x7e
}

/// Whether a byte ends a mouse report (`M` for a press, `m` for a release).
pub open spec fn mouse_end_byte(b: u8) -> bool {
    b == 77u8 || b == 109u8
}

/// The first place at or after `from` that holds a final byte.
pub open spec fn first_final(s: Seq<u8>, from: int) -> Option<int>
    decreases s.len() - from,
{
    if from < 0 || from >= s.len() {
        None
    } else if final_byte(s[from]) {
        Some(from)
    } else {
        first_final(s, from + 1)
    }
}

/// The first place at or after `from` that ends a mouse report.
pub open spec fn first_mouse_end(s: Seq<u8>, from: int) -> Option<int>
    decreases s.len() - from,
{
    if from < 0 || from >= s.len() {
        None
    } else if mouse_end_byte(s[from]) {
        Some(from)
    } else {
        first_mouse_end(s, from + 1)
    }
}

/// Whether input starts with `ESC [`.
pub open spec fn starts_csi(s: Seq<u8>) -> bool {
    s.len() >= 2 && s[0] == 27u8 && s[1] == 91u8
}

/// Whether input starts with `ESC [ <`, the start of a mouse report.
pub open spec fn starts_sgr(s: Seq<u8>) -> bool {
    s.len() >= 3 && s[0] == 27u8 && s[1] == 91u8 && s[2] == 60u8
}

/// The length of the control sequence that starts the input: up to its
/// first final byte.
pub open spec fn csi_len_spec(s: Seq<u8>) -> Option<int> {
    if starts_csi(s) {
        match first_final(s, 2) {
            Some(e) => Some(e + 1),
            None => None,
        }
    } else {
        None
    }
}

/// Whether the input is the start of a control sequence that more input
/// may still finish.
pub open spec fn incomplete_csi_spec(s: Seq<u8>) -> bool {
    starts_csi(s) && s.len() < 64 && csi_len_spec(s) is None
}

/// The length of the mouse report that starts the input.
pub open spec fn sgr_len_spec(s: Seq<u8>) -> Option<int> {
    if starts_sgr(s) {
        match first_mouse_end(s, 3) {
            Some(e) => Some(e + 1),
            None => None,
        }
    } else {
        None
    }
}

/// Whether the input is the start of a mouse report that more input may
/// still finish: only digits and `;` after `ESC [ <`.
pub open spec fn incomplete_sgr_spec(s: Seq<u8>) -> bool {
    starts_sgr(s) && s.len() < 64 && (forall|i: int| 0 <= i < s.len() ==> !mouse_end_byte(#[trigger] s[i]))
        && (forall|i: int| 3 <= i < s.len() ==> (48 <= #[trigger] s[i] <= 57 || s[i] == 59u8))
}

/// A final byte found stands in the input, at or after where the search
/// began.
pub proof fn lemma_first_final_range(s: Seq<u8>, from: int)
    ensures
        first_final(s, from) matches Some(e) ==> from <= e < s.len() && final_byte(s[e]),
    decreases s.len() - from,
{
    if 0 <= from < s.len() && !final_byte(s[from]) {
        lemma_first_final_range(s, from + 1);
    }
}

/// A report end found stands in the input, at or after where the search
/// began.
pub proof fn lemma_first_mouse_end_range(s: Seq<u8>, from: int)
    ensures
        first_mouse_end(s, from) matches Some(e) ==> from <= e < s.len() && mouse_end_byte(s[e]),
    decreases s.len() - from,
{
    if 0 <= from < s.len() && !mouse_end_byte(s[from]) {
        lemma_first_mouse_end_range(s, from + 1);
    }
}

fn first_final_from(s: &[u8], from: usize) -> (r: Option<usize>)
    requires
        from <= s@.len(),
    ensures
        match first_final(s@, from as int) {
            Some(e) => r == Some(e as usize),
            None => r is None,
        },
        r matches Some(e) ==> from <= e < s@.len(),
        first_final(s@, from as int) matches Some(e) ==> from <= e < s@.len(),
{
    proof {
        lemma_first_final_range(s@, from as int);
    }
    let mut i = from;
    while i < s.len()
        invariant
            from <= i <= s@.len(),
            first_final(s@, from as int) == first_final(s@, i as int),
        decreases s.len() - i,
    {
        if s[i] >= 0x40u8 && s[i] <= 0x7eu8 {
            return Some(i);
        }
        i += 1;
    }
    None
}

fn first_mouse_end_from(s: &[u8], from: usize) -> (r: Option<usize>)
    requires
        from <= s@.len(),
    ensures
        match first_mouse_end(s@, from as int) {
            Some(e) => r == Some(e as usize),
            None => r is None,
        },
        r matches Some(e) ==> from <= e < s@.len(),
        first_mouse_end(s@, from as int) matches Some(e) ==> from <= e < s@.len(),
{
    proof {
        lemma_first_mouse_end_range(s@, from as int);
    }
    let mut i = from;
    while i < s.len()
        invariant
            from <= i <= s@.len(),
            first_mouse_end(s@, from as int) == first_mouse_end(s@, i as int),
        decreases s.len() - i,
    {
        if s[i] == 77u8 || s[i] == 109u8 {
            return Some(i);
        }
        i += 1;
    }
    None
}

/// The length of the control sequence that starts the input, if it is
/// complete.
pub fn complete_csi_sequence_len(input: &[u8]) -> (r: Option<usize>)
    ensures
        match csi_len_spec(input@) {
            Some(n) => r == Some(n as usize),
            None => r is None,
        },
        csi_len_spec(input@) matches Some(n) ==> 3 <= n <= input@.len() && final_byte(input@[n - 1]),
        r matches Some(n) ==> 3 <= n <= input@.len(),
{
    proof {
        lemma_first_final_range(input@, 2);
    }
    if !(input.len() >= 2 && input[0] == 27u8 && input[1] == 91u8) {
        return None;
    }
    match first_final_from(input, 2) {
        Some(e) => Some(e + 1),
        None => None,
    }
}

/// Whether the input starts a control sequence that is not yet complete.
pub fn is_incomplete_csi_sequence(input: &[u8]) -> (r: bool)
    ensures
        r == incomplete_csi_spec(input@),
{
    input.len() >= 2 && input[0] == 27u8 && input[1] == 91u8 && input.len() < 64
        && complete_csi_sequence_len(input).is_none()
}

/// The length of the mouse report that starts the input, if it is
/// complete.
pub fn complete_sgr_mouse_event_len(input: &[u8]) -> (r: Option<usize>)
    ensures
        match sgr_len_spec(input@) {
            Some(n) => r == Some(n as usize),
            None => r is None,
        },
        sgr_len_spec(input@) matches Some(n) ==> 4 <= n <= input@.len() && mouse_end_byte(
            input@[n - 1],
        ),
        r matches Some(n) ==> 4 <= n <= input@.len(),
{
    proof {
        lemma_first_mouse_end_range(input@, 3);
    }
    if !(input.len() >= 3 && input[0] == 27u8 && input[1] == 91u8 && input[2] == 60u8) {
        return None;
    }
    match first_mouse_end_from(input, 3) {
        Some(e) => Some(e + 1),
        None => None,
    }
}

/// Whether the input starts a mouse report that is not yet complete.
pub fn is_incomplete_sgr_mouse_event(input: &[u8]) -> (r: bool)
    ensures
        r == incomplete_sgr_spec(input@),
{
    if !(input.len() >= 3 && input[0] == 27u8 && input[1] == 91u8 && input[2] == 60u8
        && input.len() < 64) {
        return false;
    }
    let mut i: usize = 0;
    while i < input.len()
        invariant
            i <= input@.len(),
            forall|j: int| 0 <= j < i ==> !mouse_end_byte(#[trigger] input@[j]),
        decreases input.len() - i,
    {
        if input[i] == 77u8 || input[i] == 109u8 {
            return false;
        }
        i += 1;
    }
    let mut k: usize = 3;
    while k < input.len()
        invariant
            3 <= k <= input@.len(),
            forall|j: int| 3 <= j < k ==> (48 <= #[trigger] input@[j] <= 57 || input@[j] == 59u8),
        decreases input.len() - k,
    {
        let b = input[k];
        if !((b >= 48u8 && b <= 57u8) || b == 59u8) {
            return false;
        }
        k += 1;
    }
    true
}

/// Whether the input is a lone escape or the start of a mouse report or
/// control sequence that more input may finish.
pub open spec fn incomplete_prompt_escape_spec(s: Seq<u8>) -> bool {
    s =~= seq![27u8] || incomplete_sgr_spec(s) || incomplete_csi_spec(s)
}

/// Whether the input may be the start of an escape sequence still being
/// typed.
pub fn is_incomplete_prompt_escape_sequence(input: &[u8]) -> (r: bool)
    ensures
        r == incomplete_prompt_escape_spec(input@),
{
    (input.len() == 1 && input[0] == 27u8) || is_incomplete_sgr_mouse_event(input)
        || is_incomplete_csi_sequence(input)
}

/// A mouse report: the button code, the one-based cell, and whether the
/// button was released.
#[derive(Debug, Clone, Copy, PartialEq, Eq, Structural)]
pub struct SgrMouseEvent {
    pub code: u16,
    pub col: u16,
    pub row: u16,
    pub release: bool,
}

/// A `u16` as std's `FromStr` reads it.
pub open spec fn parse_u16_spec(s: Seq<char>) -> Option<nat> {
    parse_unsigned(s, u16::MAX as nat)
}

/// The mouse report that starts the input and its length: `ESC [ <`, three
/// `;`-separated numbers, then `M` or `m`.
pub open spec fn sgr_event_spec(s: Seq<u8>) -> Option<(SgrMouseEvent, int)> {
    if !starts_sgr(s) {
        None
    } else {
        match first_mouse_end(s, 3) {
            None => None,
            Some(e) => {
                let fields = s.subrange(3, e);
                if !valid_utf8(fields) {
                    None
                } else {
                    let p = split(decode_utf8(fields), ';');
                    if p.len() != 3 {
                        None
                    } else {
                        match (parse_u16_spec(p[0]), parse_u16_spec(p[1]), parse_u16_spec(p[2])) {
                            (Some(code), Some(col), Some(row)) => Some(
                                (
                                    SgrMouseEvent {
                                        code: code as u16,
                                        col: col as u16,
                                        row: row as u16,
                                        release: s[e] == 109u8,
                                    },
                                    e + 1,
                                ),
                            ),
                            _ => None,
                        }
                    }
                }
            },
        }
    }
}

fn copy_range(v: &[u8], start: usize, end: usize) -> (r: Vec<u8>)
    requires
        start <= end <= v@.len(),
    ensures
        r@ == v@.subrange(start as int, end as int),
{
    let mut out: Vec<u8> = Vec::new();
    let mut i = start;
    while i < end
        invariant
            start <= i <= end <= v@.len(),
            out@ == v@.subrange(start as int, i as int),
        decreases end - i,
    {
        out.push(v[i]);
        i += 1;
    }
    out
}

/// Reads the mouse report that starts the input.
pub fn parse_sgr_mouse_event(input: &[u8]) -> (r: Option<(SgrMouseEvent, usize)>)
    ensures
        match sgr_event_spec(input@) {
            Some((ev, n)) => r == Some((ev, n as usize)),
            None => r is None,
        },
{
    if !(input.len() >= 3 && input[0] == 27u8 && input[1] == 91u8 && input[2] == 60u8) {
        return None;
    }
    let e = match first_mouse_end_from(input, 3) {
        Some(e) => e,
        None => return None,
    };
    let fields = copy_range(input, 3, e);
    let text = match string_from_utf8(fields) {
        Some(t) => t,
        None => return None,
    };
    let v = chars_of(text.as_str());
    let p = split_chars(v.as_slice(), ';');
    if p.len() != 3 {
        return None;
    }
    let code = match parse_unsigned_chars(p[0].as_slice(), 65535) {
        Some(n) => n as u16,
        None => return None,
    };
    let col = match parse_unsigned_chars(p[1].as_slice(), 65535) {
        Some(n) => n as u16,
        None => return None,
    };
    let row = match parse_unsigned_chars(p[2].as_slice(), 65535) {
        Some(n) => n as u16,
        None => return None,
    };
    Some((SgrMouseEvent { code, col, row, release: input[e] == 109u8 }, e + 1))
}

/// A left-button press at a cell, which focuses the pane under it.
pub open spec fn press_position_spec(event: SgrMouseEvent) -> Option<crate::attach::MousePosition> {
    if event.release || event.col == 0 || event.row == 0 || event.code != 0 {
        None
    } else {
        Some(crate::attach::MousePosition { col: event.col, row: event.row })
    }
}

/// Where a left-button press happened; none for other mouse reports.
pub fn live_mouse_press_position(event: SgrMouseEvent) -> (r: Option<crate::attach::MousePosition>)
    ensures
        r == press_position_spec(event),
{
    if event.release || event.col == 0 || event.row == 0 {
        return None;
    }
    if event.code != 0 {
        return None;
    }
    Some(crate::attach::MousePosition { col: event.col, row: event.row })
}

/// What the start of some input is as a key: a key and the bytes it takes,
/// bytes that form no key the client handles, or a start that more input
/// must finish.
#[derive(Debug, Clone, Copy, PartialEq, Eq, Structural)]
pub enum ParsedInputKey {
    Key(KeyStroke, usize),
    Unhandled(usize),
    Incomplete,
}

/// A key with no modifiers.
pub open spec fn plain_key(code: KeyCode) -> KeyStroke {
    KeyStroke { code, ctrl: false, alt: false, shift: false }
}

/// The arrow key a final byte names.
pub open spec fn arrow_code_spec(b: u8) -> Option<KeyCode> {
    if b == 68u8 {
        Some(KeyCode::Left)
    } else if b == 66u8 {
        Some(KeyCode::Down)
    } else if b == 65u8 {
        Some(KeyCode::Up)
    } else if b == 67u8 {
        Some(KeyCode::Right)
    } else {
        None
    }
}

/// The arrow key a final byte names (`D`, `B`, `A`, `C`).
pub fn arrow_key_code(final_byte: u8) -> (r: Option<KeyCode>)
    ensures
        r == arrow_code_spec(final_byte),
{
    if final_byte == 68u8 {
        Some(KeyCode::Left)
    } else if final_byte == 66u8 {
        Some(KeyCode::Down)
    } else if final_byte == 65u8 {
        Some(KeyCode::Up)
    } else if final_byte == 67u8 {
        Some(KeyCode::Right)
    } else {
        None
    }
}

/// The numbers of a parameter list, each a `u8`, or `None` when one is
/// not.
pub open spec fn u8_params(parts: Seq<Seq<char>>) -> Option<Seq<nat>>
    decreases parts.len(),
{
    if parts.len() == 0 {
        Some(Seq::empty())
    } else {
        match u8_params(parts.drop_last()) {
            None => None,
            Some(done) => if parts.last().len() == 0 {
                Some(done)
            } else {
                match parse_unsigned(parts.last(), 255) {
                    None => None,
                    Some(n) => Some(done.push(n)),
                }
            },
        }
    }
}

/// Shift, Alt and Ctrl as the parameters of an arrow key's control
/// sequence give them: the modifier is the last number when there is a
/// `;`, else the first when it is at least two, else one; it encodes
/// `1 + shift + 2 alt + 4 ctrl`.
pub open spec fn modifier_spec(params: Seq<u8>) -> Option<(bool, bool, bool)> {
    if params.len() == 0 {
        Some((false, false, false))
    } else if !valid_utf8(params) {
        None
    } else {
        let text = decode_utf8(params);
        if text[0] == '<' {
            None
        } else {
            match u8_params(split(text, ';')) {
                None => None,
                Some(values) => {
                    let modifier: nat = if text.contains(';') {
                        if values.len() > 0 {
                            values.last()
                        } else {
                            1
                        }
                    } else if values.len() > 0 && values[0] >= 2 {
                        values[0]
                    } else {
                        1
                    };
                    if modifier == 0 || modifier - 1 > 7 {
                        None
                    } else {
                        let e = (modifier - 1) as nat;
                        Some((e % 2 == 1, (e / 2) % 2 == 1, e / 4 == 1))
                    }
                },
            }
        }
    }
}

/// Reads Shift, Alt and Ctrl from an arrow key's parameters.
pub fn csi_modifier_state(params: &[u8]) -> (r: Option<(bool, bool, bool)>)
    ensures
        r == modifier_spec(params@),
{
    if params.len() == 0 {
        return Some((false, false, false));
    }
    let bytes = copy_range(params, 0, params.len());
    assert(bytes@ =~= params@);
    let text = match string_from_utf8(bytes) {
        Some(t) => t,
        None => return None,
    };
    let v = chars_of(text.as_str());
    assert(v@.len() > 0);
    if v[0] == '<' {
        return None;
    }
    let parts = split_chars(v.as_slice(), ';');
    let ghost pv = split(v@, ';');
    let mut values: Vec<u8> = Vec::new();
    let mut i: usize = 0;
    while i < parts.len()
        invariant
            i <= parts@.len() == pv.len(),
            pv == split(v@, ';'),
            params@.len() > 0,
            valid_utf8(params@),
            v@ == decode_utf8(params@),
            v@[0] != '<',
            forall|j: int| 0 <= j < parts@.len() ==> (#[trigger] parts@[j])@ == pv[j],
            u8_params(pv.take(i as int)) matches Some(done) && done == values@.map_values(
                |x: u8| x as nat,
            ),
        decreases parts.len() - i,
    {
        assert(pv.take(i + 1).drop_last() =~= pv.take(i as int));
        assert(pv.take(i + 1).last() == parts@[i as int]@);
        if parts[i].len() > 0 {
            match parse_unsigned_chars(parts[i].as_slice(), 255) {
                Some(n) => {
                    let ghost before = values@;
                    values.push(n as u8);
                    assert(values@.map_values(|x: u8| x as nat) =~= before.map_values(
                        |x: u8| x as nat,
                    ).push(n as nat));
                },
                None => {
                    proof {
                        lemma_u8_params_none(pv, (i + 1) as int);
                    }
                    return None;
                },
            }
        }
        i += 1;
    }
    assert(pv.take(i as int) =~= pv);
    let mut has_semicolon = false;
    let mut k: usize = 0;
    while k < v.len()
        invariant
            k <= v@.len(),
            has_semicolon == exists|j: int| 0 <= j < k && v@[j] == ';',
        decreases v.len() - k,
    {
        if v[k] == ';' {
            has_semicolon = true;
        }
        k += 1;
    }
    assert(has_semicolon == v@.contains(';'));
    let modifier: u8 = if has_semicolon {
        if values.len() > 0 {
            values[values.len() - 1]
        } else {
            1
        }
    } else if values.len() > 0 && values[0] >= 2 {
        values[0]
    } else {
        1
    };
    if modifier == 0 || modifier - 1 > 7 {
        return None;
    }
    let e = modifier - 1;
    Some((e % 2 == 1, (e / 2) % 2 == 1, e / 4 == 1))
}

/// Once a prefix of the parameters fails, all of them fail.
proof fn lemma_u8_params_none(parts: Seq<Seq<char>>, k: int)
    requires
        0 <= k <= parts.len(),
        u8_params(parts.take(k)) is None,
    ensures
        u8_params(parts) is None,
    decreases parts.len() - k,
{
    if k < parts.len() {
        assert(parts.take(k + 1).drop_last() =~= parts.take(k));
        lemma_u8_params_none(parts, k + 1);
    } else {
        assert(parts.take(k) =~= parts);
    }
}

/// What a control sequence at the start of the input is as a key: an arrow
/// key with its modifiers, another complete sequence the client does not
/// handle, or a sequence not yet complete.
pub open spec fn csi_key_spec(s: Seq<u8>) -> ParsedInputKey {
    match csi_len_spec(s) {
        None => if incomplete_csi_spec(s) {
            ParsedInputKey::Incomplete
        } else {
            ParsedInputKey::Unhandled(if s.len() < 1 { s.len() as usize } else { 1 })
        },
        Some(n) => match arrow_code_spec(s[n - 1]) {
            None => ParsedInputKey::Unhandled(n as usize),
            Some(code) => match modifier_spec(s.subrange(2, n - 1)) {
                None => ParsedInputKey::Unhandled(n as usize),
                Some((shift, alt, ctrl)) => ParsedInputKey::Key(
                    KeyStroke { code, ctrl, alt, shift },
                    n as usize,
                ),
            },
        },
    }
}

/// The key that starts some input: a byte; a lone escape; an arrow key
/// (`ESC [` or `ESC O` sequences); or a key held with Alt (escape, then
/// the key). An escape whose key is not yet complete counts as a lone
/// escape.
pub open spec fn input_key_spec(s: Seq<u8>) -> ParsedInputKey
    decreases s.len(),
{
    if s.len() == 0 {
        ParsedInputKey::Incomplete
    } else if s[0] != 27u8 {
        ParsedInputKey::Key(plain_key(KeyCode::Byte(s[0])), 1)
    } else if s.len() == 1 {
        ParsedInputKey::Key(plain_key(KeyCode::Byte(27u8)), 1)
    } else if s[1] == 91u8 {
        csi_key_spec(s)
    } else if s[1] == 79u8 && s.len() == 2 {
        ParsedInputKey::Incomplete
    } else if s[1] == 79u8 {
        match arrow_code_spec(s[2]) {
            Some(code) => ParsedInputKey::Key(plain_key(code), 3),
            None => ParsedInputKey::Unhandled(3),
        }
    } else {
        match input_key_spec(s.drop_first()) {
            ParsedInputKey::Key(k, n) => ParsedInputKey::Key(
                KeyStroke { code: k.code, ctrl: k.ctrl, alt: true, shift: k.shift },
                (n + 1) as usize,
            ),
            ParsedInputKey::Unhandled(n) => ParsedInputKey::Unhandled((n + 1) as usize),
            ParsedInputKey::Incomplete => ParsedInputKey::Key(plain_key(KeyCode::Byte(27u8)), 1),
        }
    }
}

/// What a parsed key takes: never more than the input holds.
pub open spec fn key_fits(k: ParsedInputKey, len: nat) -> bool {
    match k {
        ParsedInputKey::Key(_, n) => 1 <= n <= len,
        ParsedInputKey::Unhandled(n) => 1 <= n <= len,
        ParsedInputKey::Incomplete => true,
    }
}

/// Reads the control sequence at the start of the input as a key.
pub fn parse_csi_input_key(input: &[u8]) -> (r: ParsedInputKey)
    requires
        starts_csi(input@),
    ensures
        r == csi_key_spec(input@),
        key_fits(r, input@.len()),
{
    let n = match complete_csi_sequence_len(input) {
        Some(n) => n,
        None => {
            return if is_incomplete_csi_sequence(input) {
                ParsedInputKey::Incomplete
            } else {
                ParsedInputKey::Unhandled(if input.len() < 1 { input.len() } else { 1 })
            };
        },
    };
    let code = match arrow_key_code(input[n - 1]) {
        Some(c) => c,
        None => return ParsedInputKey::Unhandled(n),
    };
    let params = copy_range(input, 2, n - 1);
    match csi_modifier_state(params.as_slice()) {
        None => ParsedInputKey::Unhandled(n),
        Some((shift, alt, ctrl)) => ParsedInputKey::Key(KeyStroke { code, ctrl, alt, shift }, n),
    }
}

/// Reads the key that starts some input.
pub fn parse_input_key(input: &[u8]) -> (r: ParsedInputKey)
    ensures
        r == input_key_spec(input@),
        key_fits(r, input@.len()),
    decreases input.len(),
{
    if input.len() == 0 {
        return ParsedInputKey::Incomplete;
    }
    let b = input[0];
    if b != 27u8 {
        return ParsedInputKey::Key(
            KeyStroke { code: KeyCode::Byte(b), ctrl: false, alt: false, shift: false },
            1,
        );
    }
    if input.len() == 1 {
        return ParsedInputKey::Key(
            KeyStroke { code: KeyCode::Byte(27u8), ctrl: false, alt: false, shift: false },
            1,
        );
    }
    if input[1] == 91u8 {
        return parse_csi_input_key(input);
    }
    if input[1] == 79u8 {
        if input.len() == 2 {
            return ParsedInputKey::Incomplete;
        }
        return match arrow_key_code(input[2]) {
            Some(code) => ParsedInputKey::Key(
                KeyStroke { code, ctrl: false, alt: false, shift: false },
                3,
            ),
            None => ParsedInputKey::Unhandled(3),
        };
    }
    let rest = copy_range(input, 1, input.len());
    assert(rest@ =~= input@.drop_first());
    match parse_input_key(rest.as_slice()) {
        ParsedInputKey::Key(k, n) => ParsedInputKey::Key(
            KeyStroke { code: k.code, ctrl: k.ctrl, alt: true, shift: k.shift },
            n + 1,
        ),
        ParsedInputKey::Unhandled(n) => ParsedInputKey::Unhandled(n + 1),
        ParsedInputKey::Incomplete => ParsedInputKey::Key(
            KeyStroke { code: KeyCode::Byte(27u8), ctrl: false, alt: false, shift: false },
            1,
        ),
    }
}

/// The bytes a terminal sends for a key.
pub open spec fn key_bytes_spec(key: KeyStroke) -> Seq<u8> {
    match key.code {
        KeyCode::Byte(b) => if key.alt {
            seq![27u8, b]
        } else {
            seq![b]
        },
        _ => {
            let f: u8 = match key.code {
                KeyCode::Left => 68u8,
                KeyCode::Down => 66u8,
                KeyCode::Up => 65u8,
                _ => 67u8,
            };
            let m: nat = 1 + (if key.shift { 1nat } else { 0 }) + (if key.alt { 2nat } else { 0 }) + (
            if key.ctrl { 4nat } else { 0 });
            if m == 1 {
                seq![27u8, 91u8, f]
            } else {
                seq![27u8, 91u8, 49u8, 59u8, (48 + m) as u8, f]
            }
        },
    }
}

/// The bytes a terminal sends for a key.
pub fn key_stroke_input_bytes(key: KeyStroke) -> (r: Vec<u8>)
    ensures
        r@ == key_bytes_spec(key),
{
    match key.code {
        KeyCode::Byte(b) => {
            if key.alt {
                let mut v: Vec<u8> = Vec::new();
                v.push(27u8);
                v.push(b);
                v
            } else {
                let mut v: Vec<u8> = Vec::new();
                v.push(b);
                v
            }
        },
        _ => {
            let f: u8 = match key.code {
                KeyCode::Left => 68u8,
                KeyCode::Down => 66u8,
                KeyCode::Up => 65u8,
                _ => 67u8,
            };
            let m: u8 = 1 + (if key.shift { 1u8 } else { 0 }) + (if key.alt { 2u8 } else { 0 }) + (
            if key.ctrl { 4u8 } else { 0 });
            let mut v: Vec<u8> = Vec::new();
            v.push(27u8);
            v.push(91u8);
            if m != 1 {
                v.push(49u8);
                v.push(59u8);
                v.push(48 + m);
            }
            v.push(f);
            assert(v@ =~= key_bytes_spec(key));
            v
        },
    }
}

/// The key a copy-mode control sequence stands for: up, down, home, end,
/// page up and page down, and the bytes it takes.
pub open spec fn copy_mode_csi_spec(s: Seq<u8>) -> Option<(u8, usize)> {
    if starts_csi(s) && s.len() >= 3 && s[2] == 65u8 {
        Some((107u8, 3))
    } else if starts_csi(s) && s.len() >= 3 && s[2] == 66u8 {
        Some((106u8, 3))
    } else if starts_csi(s) && s.len() >= 3 && s[2] == 72u8 {
        Some((103u8, 3))
    } else if starts_csi(s) && s.len() >= 3 && s[2] == 70u8 {
        Some((71u8, 3))
    } else if starts_csi(s) && s.len() >= 4 && s[2] == 53u8 && s[3] == 126u8 {
        Some((2u8, 4))
    } else if starts_csi(s) && s.len() >= 4 && s[2] == 54u8 && s[3] == 126u8 {
        Some((6u8, 4))
    } else {
        None
    }
}

/// Reads the copy-mode key a control sequence stands for.
pub fn parse_copy_mode_csi_key(input: &[u8]) -> (r: Option<(u8, usize)>)
    ensures
        r == copy_mode_csi_spec(input@),
{
    if !(input.len() >= 3 && input[0] == 27u8 && input[1] == 91u8) {
        return None;
    }
    let c = input[2];
    if c == 65u8 {
        Some((107u8, 3))
    } else if c == 66u8 {
        Some((106u8, 3))
    } else if c == 72u8 {
        Some((103u8, 3))
    } else if c == 70u8 {
        Some((71u8, 3))
    } else if input.len() >= 4 && c == 53u8 && input[3] == 126u8 {
        Some((2u8, 4))
    } else if input.len() >= 4 && c == 54u8 && input[3] == 126u8 {
        Some((6u8, 4))
    } else {
        None
    }
}

/// Whether copy-mode input may be a key sequence still being typed.
pub fn is_incomplete_copy_mode_csi_key(input: &[u8]) -> (r: bool)
    ensures
        r == (input@ =~= seq![27u8] || incomplete_csi_spec(input@)),
{
    (input.len() == 1 && input[0] == 27u8) || is_incomplete_csi_sequence(input)
}

} // verus!
