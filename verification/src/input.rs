//! Turning what an attached client reads from the terminal into actions:
//! bytes to forward to the pane, and the prefix-key commands, mouse
//! presses, pane-number selection and command prompt of a session.
//!
//! Input is read in pieces; a key or escape sequence cut off at the end of
//! a piece waits in the state until the next piece finishes it. Times are
//! milliseconds counted from any fixed origin.

use vstd::prelude::*;
use vstd::string::*;
use crate::attach::MousePosition;
use crate::keys::{
    action_for_key_spec, csi_len_spec, incomplete_prompt_escape_spec, incomplete_sgr_spec,
    input_key_spec, key_fits, press_position_spec, sgr_event_spec, sgr_len_spec,
    complete_csi_sequence_len, complete_sgr_mouse_event_len, is_incomplete_prompt_escape_sequence,
    is_incomplete_sgr_mouse_event, live_mouse_press_position, parse_input_key, parse_sgr_mouse_event,
    LiveControls, LiveKeyAction, PaneCommand, ParsedInputKey,
};
use crate::popup::{string_from_utf8_lossy, utf8_lossy};
use crate::text::{chars_of, string_from_chars, trim, trim_chars};

verus! {

/// How long an escape typed at the command prompt waits for the rest of a
/// sequence before it cancels the prompt.
pub const COPY_MODE_ESCAPE_DISAMBIGUATION_MS: u64 = 30;

/// What the client should do for some input.
#[derive(Debug, Clone, PartialEq, Eq)]
pub enum InputAction {
    Forward(Vec<u8>),
    MousePress(MousePosition),
    PaneCommand(PaneCommand),
    CommandPromptStart,
    CommandPromptUpdate(String),
    CommandPromptDispatch { command: String, trailing_input: Vec<u8> },
    CommandPromptCancel,
    Detach,
    SelectNextPane,
    ShowPaneNumbers,
    ShowHelp,
    SelectPane(usize),
    EnterCopyMode { initial_input: Vec<u8> },
}

/// The actions of a raw attached client, which never sees mouse presses.
pub type AttachInputAction = InputAction;

/// The actions of a live client.
pub type LiveSnapshotInputAction = InputAction;

/// An action as values.
pub enum ActionView {
    Forward(Seq<u8>),
    MousePress(MousePosition),
    PaneCommand(PaneCommand),
    CommandPromptStart,
    CommandPromptUpdate(Seq<char>),
    CommandPromptDispatch { command: Seq<char>, trailing_input: Seq<u8> },
    CommandPromptCancel,
    Detach,
    SelectNextPane,
    ShowPaneNumbers,
    ShowHelp,
    SelectPane(usize),
    EnterCopyMode { initial_input: Seq<u8> },
}

impl View for InputAction {
    type V = ActionView;

    open spec fn view(&self) -> ActionView {
        match self {
            InputAction::Forward(b) => ActionView::Forward(b@),
            InputAction::MousePress(p) => ActionView::MousePress(*p),
            InputAction::PaneCommand(c) => ActionView::PaneCommand(*c),
            InputAction::CommandPromptStart => ActionView::CommandPromptStart,
            InputAction::CommandPromptUpdate(s) => ActionView::CommandPromptUpdate(s@),
            InputAction::CommandPromptDispatch { command, trailing_input } => ActionView::CommandPromptDispatch {
                command: command@,
                trailing_input: trailing_input@,
            },
            InputAction::CommandPromptCancel => ActionView::CommandPromptCancel,
            InputAction::Detach => ActionView::Detach,
            InputAction::SelectNextPane => ActionView::SelectNextPane,
            InputAction::ShowPaneNumbers => ActionView::ShowPaneNumbers,
            InputAction::ShowHelp => ActionView::ShowHelp,
            InputAction::SelectPane(i) => ActionView::SelectPane(*i),
            InputAction::EnterCopyMode { initial_input } => ActionView::EnterCopyMode {
                initial_input: initial_input@,
            },
        }
    }
}

/// The views of a list of actions.
pub open spec fn actions_view(a: Seq<InputAction>) -> Seq<ActionView> {
    a.map_values(|x: InputAction| x@)
}

/// What a client remembers between pieces of input: whether the prefix key
/// came last, whether a pane number is awaited, the command being typed at
/// the prompt, bytes that wait for the rest of a sequence, and since when
/// an escape at the prompt waits.
#[derive(Debug)]
pub struct InputState {
    pub saw_prefix: bool,
    pub selecting_pane: bool,
    pub command_prompt: Option<Vec<u8>>,
    pub mouse_pending: Vec<u8>,
    pub prompt_pending_since: Option<u64>,
}

/// The input state of a raw attached client.
pub type RawAttachInputState = InputState;

/// The input state of a live client.
pub type LiveSnapshotInputState = InputState;

/// The input state as values.
pub struct InputMemory {
    pub saw_prefix: bool,
    pub selecting_pane: bool,
    pub command_prompt: Option<Seq<u8>>,
    pub mouse_pending: Seq<u8>,
    pub prompt_pending_since: Option<u64>,
}

impl View for InputState {
    type V = InputMemory;

    open spec fn view(&self) -> InputMemory {
        InputMemory {
            saw_prefix: self.saw_prefix,
            selecting_pane: self.selecting_pane,
            command_prompt: match self.command_prompt {
                Some(c) => Some(c@),
                None => None,
            },
            mouse_pending: self.mouse_pending@,
            prompt_pending_since: self.prompt_pending_since,
        }
    }
}

/// A fresh state: nothing typed, nothing waiting.
pub open spec fn fresh_input() -> InputMemory {
    InputMemory {
        saw_prefix: false,
        selecting_pane: false,
        command_prompt: None,
        mouse_pending: Seq::empty(),
        prompt_pending_since: None,
    }
}

impl Default for InputState {
    fn default() -> (r: Self)
        ensures
            r@ == fresh_input(),
    {
        InputState {
            saw_prefix: false,
            selecting_pane: false,
            command_prompt: None,
            mouse_pending: Vec::new(),
            prompt_pending_since: None,
        }
    }
}

/// The actions with the bytes gathered so far forwarded, when there are any.
pub open spec fn flush(actions: Seq<ActionView>, output: Seq<u8>) -> Seq<ActionView> {
    if output.len() > 0 {
        actions.push(ActionView::Forward(output))
    } else {
        actions
    }
}

/// Where a step of reading input leaves it: going on at an offset with
/// the bytes gathered, the actions and the state; or done with its actions
/// and state.
pub enum StepView {
    Go { offset: int, output: Seq<u8>, actions: Seq<ActionView>, st: InputMemory },
    Done { actions: Seq<ActionView>, st: InputMemory },
}

/// What a bound key does to the reading of input: the gathered bytes are
/// forwarded first; sending the prefix gathers the prefix byte; detaching
/// and copy mode end it (copy mode takes the input after the
/// key); showing pane numbers awaits a number; the command prompt opens
/// empty; the rest become their actions.
pub open spec fn key_action_step(
    offset: int,
    n: int,
    bytes: Seq<u8>,
    output: Seq<u8>,
    actions: Seq<ActionView>,
    st: InputMemory,
    prefix: u8,
    action: LiveKeyAction,
) -> StepView {
    let a = flush(actions, output);
    let next = offset + n;
    match action {
        LiveKeyAction::SendPrefix => StepView::Go { offset: next, output: seq![prefix], actions: a, st },
        LiveKeyAction::Detach => StepView::Done { actions: a.push(ActionView::Detach), st },
        LiveKeyAction::CopyMode => StepView::Done {
            actions: a.push(ActionView::EnterCopyMode { initial_input: bytes.skip(next) }),
            st,
        },
        LiveKeyAction::SelectNextPane => StepView::Go {
            offset: next,
            output: Seq::empty(),
            actions: a.push(ActionView::SelectNextPane),
            st,
        },
        LiveKeyAction::ShowPaneNumbers => StepView::Go {
            offset: next,
            output: Seq::empty(),
            actions: a.push(ActionView::ShowPaneNumbers),
            st: InputMemory { selecting_pane: true, ..st },
        },
        LiveKeyAction::ShowHelp => StepView::Go {
            offset: next,
            output: Seq::empty(),
            actions: a.push(ActionView::ShowHelp),
            st,
        },
        LiveKeyAction::CommandPrompt => StepView::Go {
            offset: next,
            output: Seq::empty(),
            actions: a.push(ActionView::CommandPromptStart),
            st: InputMemory { command_prompt: Some(Seq::empty()), ..st },
        },
        LiveKeyAction::PaneCommand(c) => StepView::Go {
            offset: next,
            output: Seq::empty(),
            actions: a.push(ActionView::PaneCommand(c)),
            st,
        },
    }
}

/// Whether a byte is an ASCII control character.
pub open spec fn ascii_control(b: u8) -> bool {
    b < 0x20 || b == 0x7f
}

/// One step at the command prompt: an escape sequence (a mouse report or
/// a control sequence) cancels it; an escape that may start one waits for
/// more input; Enter runs the command typed (trimmed; an empty one
/// cancels) with the input after it left for later; C-c or escape cancel;
/// backspace edits; other non-control bytes are typed.
pub open spec fn prompt_step(
    bytes: Seq<u8>,
    offset: int,
    output: Seq<u8>,
    actions: Seq<ActionView>,
    st: InputMemory,
    cmd: Seq<u8>,
    now: u64,
) -> StepView {
    let rest = bytes.skip(offset);
    let byte = rest[0];
    let closed = InputMemory { command_prompt: None, ..st };
    if byte == 27u8 && sgr_len_spec(rest) is Some {
        StepView::Go {
            offset: offset + sgr_len_spec(rest).unwrap(),
            output,
            actions: actions.push(ActionView::CommandPromptCancel),
            st: closed,
        }
    } else if byte == 27u8 && csi_len_spec(rest) is Some {
        StepView::Go {
            offset: offset + csi_len_spec(rest).unwrap(),
            output,
            actions: actions.push(ActionView::CommandPromptCancel),
            st: closed,
        }
    } else if byte == 27u8 && incomplete_prompt_escape_spec(rest) {
        StepView::Done {
            actions: flush(actions, output),
            st: InputMemory {
                mouse_pending: st.mouse_pending + rest,
                prompt_pending_since: Some(now),
                ..st
            },
        }
    } else if byte == 13u8 || byte == 10u8 {
        let command = trim(utf8_lossy(cmd));
        if command.len() == 0 {
            StepView::Go {
                offset: offset + 1,
                output,
                actions: actions.push(ActionView::CommandPromptCancel),
                st: closed,
            }
        } else {
            StepView::Done {
                actions: flush(
                    actions.push(
                        ActionView::CommandPromptDispatch {
                            command,
                            trailing_input: bytes.skip(offset + 1),
                        },
                    ),
                    output,
                ),
                st: closed,
            }
        }
    } else if byte == 3u8 || byte == 27u8 {
        StepView::Go {
            offset: offset + 1,
            output,
            actions: actions.push(ActionView::CommandPromptCancel),
            st: closed,
        }
    } else if byte == 0x7fu8 || byte == 8u8 {
        let edited = if cmd.len() > 0 {
            cmd.drop_last()
        } else {
            cmd
        };
        StepView::Go {
            offset: offset + 1,
            output,
            actions: actions.push(ActionView::CommandPromptUpdate(utf8_lossy(edited))),
            st: InputMemory { command_prompt: Some(edited), ..st },
        }
    } else if !ascii_control(byte) {
        let typed = cmd.push(byte);
        StepView::Go {
            offset: offset + 1,
            output,
            actions: actions.push(ActionView::CommandPromptUpdate(utf8_lossy(typed))),
            st: InputMemory { command_prompt: Some(typed), ..st },
        }
    } else {
        StepView::Go { offset: offset + 1, output, actions, st }
    }
}

/// One step outside the prompt for a key that starts the rest of the
/// input, once mouse reports and pane numbers are dealt with: after the
/// prefix key a bound key does its action and any other key is forwarded
/// after the prefix; the prefix key itself is remembered; a key held with
/// Alt does its binding without the prefix; other keys are forwarded; a
/// key not yet complete waits for more input.
pub open spec fn key_step(
    bytes: Seq<u8>,
    offset: int,
    output: Seq<u8>,
    actions: Seq<ActionView>,
    st: InputMemory,
    controls_prefix: u8,
    bindings: Seq<(crate::config::KeyStroke, LiveKeyAction)>,
) -> StepView {
    let rest = bytes.skip(offset);
    let byte = rest[0];
    let waiting = StepView::Done {
        actions: flush(actions, output),
        st: InputMemory { mouse_pending: st.mouse_pending + rest, ..st },
    };
    if st.saw_prefix {
        let cleared = InputMemory { saw_prefix: false, ..st };
        match input_key_spec(rest) {
            ParsedInputKey::Key(k, n) => match action_for_key_spec(bindings, k) {
                Some(a) => key_action_step(
                    offset,
                    n as int,
                    bytes,
                    output,
                    actions,
                    cleared,
                    controls_prefix,
                    a,
                ),
                None => StepView::Go {
                    offset: offset + n,
                    output: output.push(controls_prefix) + rest.take(n as int),
                    actions,
                    st: cleared,
                },
            },
            ParsedInputKey::Unhandled(n) => StepView::Go {
                offset: offset + n,
                output: output.push(controls_prefix) + rest.take(n as int),
                actions,
                st: cleared,
            },
            ParsedInputKey::Incomplete => waiting,
        }
    } else if byte == controls_prefix {
        StepView::Go {
            offset: offset + 1,
            output,
            actions,
            st: InputMemory { saw_prefix: true, ..st },
        }
    } else {
        match input_key_spec(rest) {
            ParsedInputKey::Key(k, n) => if k.alt && action_for_key_spec(bindings, k) is Some {
                key_action_step(
                    offset,
                    n as int,
                    bytes,
                    output,
                    actions,
                    st,
                    controls_prefix,
                    action_for_key_spec(bindings, k).unwrap(),
                )
            } else {
                StepView::Go { offset: offset + n, output: output + rest.take(n as int), actions, st }
            },
            ParsedInputKey::Unhandled(n) => StepView::Go {
                offset: offset + n,
                output: output + rest.take(n as int),
                actions,
                st,
            },
            ParsedInputKey::Incomplete => waiting,
        }
    }
}

/// One step of reading input at an offset. At the prompt, the prompt
/// takes the byte. Otherwise, when mouse focus is on, a left-button press
/// forwards what was gathered, clears the prefix, pane selection and
/// prompt, and reports the press; other mouse reports are forwarded whole;
/// a report not yet complete waits. A digit after the pane-number key
/// selects that pane; the prefix key there starts a prefix; any other byte
/// is forwarded. Keys go as [`key_step`] says.
pub open spec fn input_step(
    bytes: Seq<u8>,
    offset: int,
    output: Seq<u8>,
    actions: Seq<ActionView>,
    st: InputMemory,
    mouse: bool,
    controls_prefix: u8,
    bindings: Seq<(crate::config::KeyStroke, LiveKeyAction)>,
    now: u64,
) -> StepView {
    let rest = bytes.skip(offset);
    let byte = rest[0];
    match st.command_prompt {
        Some(cmd) => prompt_step(bytes, offset, output, actions, st, cmd, now),
        None => if mouse && byte == 27u8 && sgr_event_spec(rest) is Some {
            let (ev, n) = sgr_event_spec(rest).unwrap();
            match press_position_spec(ev) {
                Some(pos) => StepView::Go {
                    offset: offset + n,
                    output: Seq::empty(),
                    actions: flush(actions, output).push(ActionView::MousePress(pos)),
                    st: InputMemory {
                        saw_prefix: false,
                        selecting_pane: false,
                        command_prompt: None,
                        ..st
                    },
                },
                None => StepView::Go {
                    offset: offset + n,
                    output: output + rest.take(n),
                    actions,
                    st,
                },
            }
        } else if mouse && byte == 27u8 && incomplete_sgr_spec(rest) {
            StepView::Done {
                actions: flush(actions, output),
                st: InputMemory { mouse_pending: st.mouse_pending + rest, ..st },
            }
        } else if mouse && byte == 27u8 && sgr_len_spec(rest) is Some {
            let n = sgr_len_spec(rest).unwrap();
            StepView::Go { offset: offset + n, output: output + rest.take(n), actions, st }
        } else if st.selecting_pane {
            let st1 = InputMemory { selecting_pane: false, ..st };
            if 48 <= byte <= 57 {
                StepView::Go {
                    offset: offset + 1,
                    output,
                    actions: actions.push(ActionView::SelectPane((byte - 48) as usize)),
                    st: st1,
                }
            } else if byte == controls_prefix {
                StepView::Go {
                    offset: offset + 1,
                    output,
                    actions,
                    st: InputMemory { saw_prefix: true, ..st1 },
                }
            } else {
                StepView::Go { offset: offset + 1, output: output.push(byte), actions, st: st1 }
            }
        } else {
            key_step(bytes, offset, output, actions, st, controls_prefix, bindings)
        },
    }
}

/// Reading input from an offset on: steps until the input runs out or a
/// step ends it; at the end the gathered bytes are forwarded.
pub open spec fn input_run(
    bytes: Seq<u8>,
    offset: int,
    output: Seq<u8>,
    actions: Seq<ActionView>,
    st: InputMemory,
    mouse: bool,
    controls_prefix: u8,
    bindings: Seq<(crate::config::KeyStroke, LiveKeyAction)>,
    now: u64,
) -> (Seq<ActionView>, InputMemory)
    decreases bytes.len() - offset,
{
    if offset < 0 || offset >= bytes.len() {
        (flush(actions, output), st)
    } else {
        match input_step(bytes, offset, output, actions, st, mouse, controls_prefix, bindings, now) {
            StepView::Go { offset: next, output: o, actions: a, st: s } => if offset < next
                <= bytes.len() {
                input_run(bytes, next, o, a, s, mouse, controls_prefix, bindings, now)
            } else {
                (flush(a, o), s)
            },
            StepView::Done { actions: a, st: s } => (a, s),
        }
    }
}

/// The actions for a piece of input and the state after it: bytes that
/// waited from the last piece go first.
pub open spec fn translate_spec(
    input: Seq<u8>,
    st: InputMemory,
    mouse: bool,
    controls_prefix: u8,
    bindings: Seq<(crate::config::KeyStroke, LiveKeyAction)>,
    now: u64,
) -> (Seq<ActionView>, InputMemory) {
    let bytes = st.mouse_pending + input;
    let st0 = if st.mouse_pending.len() > 0 {
        InputMemory { mouse_pending: Seq::empty(), prompt_pending_since: None, ..st }
    } else {
        st
    };
    input_run(bytes, 0, Seq::empty(), Seq::empty(), st0, mouse, controls_prefix, bindings, now)
}

fn push_action(actions: &mut Vec<InputAction>, a: InputAction)
    ensures
        actions_view(final(actions)@) == actions_view(old(actions)@).push(a@),
{
    actions.push(a);
    assert(actions_view(actions@) =~= actions_view(old(actions)@).push(a@));
}

fn flush_output(output: &mut Vec<u8>, actions: &mut Vec<InputAction>)
    ensures
        final(output)@ == Seq::<u8>::empty(),
        actions_view(final(actions)@) == flush(actions_view(old(actions)@), old(output)@),
{
    if output.len() > 0 {
        let mut taken: Vec<u8> = Vec::new();
        std::mem::swap(&mut taken, output);
        push_action(actions, InputAction::Forward(taken));
    } else {
        assert(output@ =~= Seq::<u8>::empty());
    }
}

fn append_slice(out: &mut Vec<u8>, b: &[u8])
    ensures
        final(out)@ == old(out)@ + b@,
{
    let ghost start = out@;
    let mut i: usize = 0;
    while i < b.len()
        invariant
            i <= b@.len(),
            out@ == start + b@.take(i as int),
        decreases b.len() - i,
    {
        out.push(b[i]);
        assert(b@.take(i + 1) =~= b@.take(i as int).push(b@[i as int]));
        i += 1;
    }
    assert(b@.take(i as int) =~= b@);
}

fn to_vec(b: &[u8]) -> (r: Vec<u8>)
    ensures
        r@ == b@,
{
    let mut out: Vec<u8> = Vec::new();
    append_slice(&mut out, b);
    assert(Seq::<u8>::empty() + b@ =~= b@);
    out
}

/// What a step leaves for the loop that runs the steps: the offset to go
/// on at, or `None` when the reading is done.
pub open spec fn step_done(r: Option<usize>, sv: StepView, offset: int, len: int) -> bool {
    match sv {
        StepView::Go { offset: o, .. } => r == Some(o as usize) && offset < o <= len,
        StepView::Done { .. } => r is None,
    }
}

/// The gathered bytes, actions and state a step leaves.
pub open spec fn step_state(
    sv: StepView,
    output: Seq<u8>,
    actions: Seq<ActionView>,
    st: InputMemory,
) -> bool {
    match sv {
        StepView::Go { output: o, actions: a, st: s, .. } => output == o && actions == a && st == s,
        StepView::Done { actions: a, st: s } => actions == a && st == s,
    }
}

fn key_action_exec(
    bytes: &[u8],
    offset: usize,
    n: usize,
    output: &mut Vec<u8>,
    actions: &mut Vec<InputAction>,
    state: &mut InputState,
    prefix: u8,
    action: LiveKeyAction,
) -> (r: Option<usize>)
    requires
        1 <= n,
        offset + n <= bytes@.len(),
    ensures
        ({
            let sv = key_action_step(
                offset as int,
                n as int,
                bytes@,
                old(output)@,
                actions_view(old(actions)@),
                old(state)@,
                prefix,
                action,
            );
            step_done(r, sv, offset as int, bytes@.len() as int) && step_state(
                sv,
                final(output)@,
                actions_view(final(actions)@),
                final(state)@,
            )
        }),
{
    flush_output(output, actions);
    let len = bytes.len();
    assert(offset + n <= len);
    let next = offset + n;
    match action {
        LiveKeyAction::SendPrefix => {
            output.push(prefix);
            assert(output@ =~= seq![prefix]);
            Some(next)
        },
        LiveKeyAction::Detach => {
            push_action(actions, InputAction::Detach);
            None
        },
        LiveKeyAction::CopyMode => {
            let tail = vstd::slice::slice_subrange(bytes, next, bytes.len());
            let initial_input = to_vec(tail);
            assert(initial_input@ =~= bytes@.skip(next as int));
            push_action(actions, InputAction::EnterCopyMode { initial_input });
            None
        },
        LiveKeyAction::SelectNextPane => {
            push_action(actions, InputAction::SelectNextPane);
            Some(next)
        },
        LiveKeyAction::ShowPaneNumbers => {
            state.selecting_pane = true;
            push_action(actions, InputAction::ShowPaneNumbers);
            Some(next)
        },
        LiveKeyAction::ShowHelp => {
            push_action(actions, InputAction::ShowHelp);
            Some(next)
        },
        LiveKeyAction::CommandPrompt => {
            state.command_prompt = Some(Vec::new());
            push_action(actions, InputAction::CommandPromptStart);
            Some(next)
        },
        LiveKeyAction::PaneCommand(c) => {
            push_action(actions, InputAction::PaneCommand(c));
            Some(next)
        },
    }
}

fn lossy_string(b: &Vec<u8>) -> (r: String)
    ensures
        r@ == utf8_lossy(b@),
{
    string_from_utf8_lossy(b.as_slice())
}

fn prompt_step_exec(
    bytes: &[u8],
    offset: usize,
    output: &mut Vec<u8>,
    actions: &mut Vec<InputAction>,
    state: &mut InputState,
    now: u64,
) -> (r: Option<usize>)
    requires
        offset < bytes@.len(),
        old(state).command_prompt is Some,
    ensures
        ({
            let sv = prompt_step(
                bytes@,
                offset as int,
                old(output)@,
                actions_view(old(actions)@),
                old(state)@,
                old(state)@.command_prompt.unwrap(),
                now,
            );
            step_done(r, sv, offset as int, bytes@.len() as int) && step_state(
                sv,
                final(output)@,
                actions_view(final(actions)@),
                final(state)@,
            )
        }),
{
    let len = bytes.len();
    let rest = vstd::slice::slice_subrange(bytes, offset, len);
    assert(rest@ =~= bytes@.skip(offset as int));
    let byte = bytes[offset];
    assert(rest@[0] == byte);
    if byte == 27u8 {
        if let Some(n) = complete_sgr_mouse_event_len(rest) {
            state.command_prompt = None;
            push_action(actions, InputAction::CommandPromptCancel);
            return Some(offset + n);
        }
        if let Some(n) = complete_csi_sequence_len(rest) {
            state.command_prompt = None;
            push_action(actions, InputAction::CommandPromptCancel);
            return Some(offset + n);
        }
        if is_incomplete_prompt_escape_sequence(rest) {
            flush_output(output, actions);
            append_slice(&mut state.mouse_pending, rest);
            state.prompt_pending_since = Some(now);
            return None;
        }
    }
    let cmd = match &state.command_prompt {
        Some(c) => c.clone(),
        None => Vec::new(),
    };
    assert(cmd@ == old(state)@.command_prompt.unwrap());
    if byte == 13u8 || byte == 10u8 {
        let text = lossy_string(&cmd);
        let tv = chars_of(text.as_str());
        let trimmed = trim_chars(tv.as_slice());
        state.command_prompt = None;
        if trimmed.len() == 0 {
            push_action(actions, InputAction::CommandPromptCancel);
            return Some(offset + 1);
        }
        let command = string_from_chars(trimmed.as_slice());
        let tail = vstd::slice::slice_subrange(bytes, offset + 1, len);
        let trailing_input = to_vec(tail);
        assert(trailing_input@ =~= bytes@.skip(offset + 1));
        push_action(actions, InputAction::CommandPromptDispatch { command, trailing_input });
        flush_output(output, actions);
        return None;
    }
    if byte == 3u8 || byte == 27u8 {
        state.command_prompt = None;
        push_action(actions, InputAction::CommandPromptCancel);
        return Some(offset + 1);
    }
    if byte == 0x7fu8 || byte == 8u8 {
        let mut edited = cmd;
        if edited.len() > 0 {
            edited.pop();
        }
        let text = lossy_string(&edited);
        state.command_prompt = Some(edited);
        push_action(actions, InputAction::CommandPromptUpdate(text));
        return Some(offset + 1);
    }
    if byte >= 0x20u8 && byte != 0x7fu8 {
        let mut typed = cmd;
        typed.push(byte);
        let text = lossy_string(&typed);
        state.command_prompt = Some(typed);
        push_action(actions, InputAction::CommandPromptUpdate(text));
        return Some(offset + 1);
    }
    Some(offset + 1)
}

fn key_step_exec(
    bytes: &[u8],
    offset: usize,
    output: &mut Vec<u8>,
    actions: &mut Vec<InputAction>,
    state: &mut InputState,
    controls: &LiveControls,
) -> (r: Option<usize>)
    requires
        offset < bytes@.len(),
    ensures
        ({
            let sv = key_step(
                bytes@,
                offset as int,
                old(output)@,
                actions_view(old(actions)@),
                old(state)@,
                controls.prefix,
                controls.bindings@,
            );
            step_done(r, sv, offset as int, bytes@.len() as int) && step_state(
                sv,
                final(output)@,
                actions_view(final(actions)@),
                final(state)@,
            )
        }),
{
    let len = bytes.len();
    let rest = vstd::slice::slice_subrange(bytes, offset, len);
    assert(rest@ =~= bytes@.skip(offset as int));
    let byte = bytes[offset];
    assert(rest@[0] == byte);
    if state.saw_prefix {
        match parse_input_key(rest) {
            ParsedInputKey::Key(k, n) => {
                state.saw_prefix = false;
                match controls.action_for_key(k) {
                    Some(a) => {
                        return key_action_exec(
                            bytes,
                            offset,
                            n,
                            output,
                            actions,
                            state,
                            controls.prefix,
                            a,
                        );
                    },
                    None => {
                        output.push(controls.prefix);
                        let taken = vstd::slice::slice_subrange(rest, 0, n);
                        append_slice(output, taken);
                        assert(taken@ =~= rest@.take(n as int));
                        return Some(offset + n);
                    },
                }
            },
            ParsedInputKey::Unhandled(n) => {
                state.saw_prefix = false;
                output.push(controls.prefix);
                let taken = vstd::slice::slice_subrange(rest, 0, n);
                append_slice(output, taken);
                assert(taken@ =~= rest@.take(n as int));
                return Some(offset + n);
            },
            ParsedInputKey::Incomplete => {
                flush_output(output, actions);
                append_slice(&mut state.mouse_pending, rest);
                return None;
            },
        }
    }
    if byte == controls.prefix {
        state.saw_prefix = true;
        return Some(offset + 1);
    }
    match parse_input_key(rest) {
        ParsedInputKey::Key(k, n) => {
            if k.alt {
                match controls.action_for_key(k) {
                    Some(a) => {
                        return key_action_exec(
                            bytes,
                            offset,
                            n,
                            output,
                            actions,
                            state,
                            controls.prefix,
                            a,
                        );
                    },
                    None => {},
                }
            }
            let taken = vstd::slice::slice_subrange(rest, 0, n);
            append_slice(output, taken);
            assert(taken@ =~= rest@.take(n as int));
            Some(offset + n)
        },
        ParsedInputKey::Unhandled(n) => {
            let taken = vstd::slice::slice_subrange(rest, 0, n);
            append_slice(output, taken);
            assert(taken@ =~= rest@.take(n as int));
            Some(offset + n)
        },
        ParsedInputKey::Incomplete => {
            flush_output(output, actions);
            append_slice(&mut state.mouse_pending, rest);
            None
        },
    }
}

fn input_step_exec(
    bytes: &[u8],
    offset: usize,
    output: &mut Vec<u8>,
    actions: &mut Vec<InputAction>,
    state: &mut InputState,
    mouse: bool,
    controls: &LiveControls,
    now: u64,
) -> (r: Option<usize>)
    requires
        offset < bytes@.len(),
    ensures
        ({
            let sv = input_step(
                bytes@,
                offset as int,
                old(output)@,
                actions_view(old(actions)@),
                old(state)@,
                mouse,
                controls.prefix,
                controls.bindings@,
                now,
            );
            step_done(r, sv, offset as int, bytes@.len() as int) && step_state(
                sv,
                final(output)@,
                actions_view(final(actions)@),
                final(state)@,
            )
        }),
{
    if state.command_prompt.is_some() {
        return prompt_step_exec(bytes, offset, output, actions, state, now);
    }
    let len = bytes.len();
    let rest = vstd::slice::slice_subrange(bytes, offset, len);
    assert(rest@ =~= bytes@.skip(offset as int));
    let byte = bytes[offset];
    assert(rest@[0] == byte);
    if mouse && byte == 27u8 {
        if let Some((ev, n)) = parse_sgr_mouse_event(rest) {
            proof {
                crate::keys::lemma_first_mouse_end_range(rest@, 3);
            }
            match live_mouse_press_position(ev) {
                Some(pos) => {
                    flush_output(output, actions);
                    state.saw_prefix = false;
                    state.selecting_pane = false;
                    state.command_prompt = None;
                    push_action(actions, InputAction::MousePress(pos));
                },
                None => {
                    let taken = vstd::slice::slice_subrange(rest, 0, n);
                    append_slice(output, taken);
                    assert(taken@ =~= rest@.take(n as int));
                },
            }
            return Some(offset + n);
        }
        if is_incomplete_sgr_mouse_event(rest) {
            flush_output(output, actions);
            append_slice(&mut state.mouse_pending, rest);
            return None;
        }
        if let Some(n) = complete_sgr_mouse_event_len(rest) {
            let taken = vstd::slice::slice_subrange(rest, 0, n);
            append_slice(output, taken);
            assert(taken@ =~= rest@.take(n as int));
            return Some(offset + n);
        }
    }
    if state.selecting_pane {
        state.selecting_pane = false;
        if byte >= 48u8 && byte <= 57u8 {
            push_action(actions, InputAction::SelectPane((byte - 48u8) as usize));
            return Some(offset + 1);
        }
        if byte == controls.prefix {
            state.saw_prefix = true;
            return Some(offset + 1);
        }
        output.push(byte);
        return Some(offset + 1);
    }
    key_step_exec(bytes, offset, output, actions, state, controls)
}

/// The prefix byte of the default controls.
pub open spec fn default_prefix() -> u8 {
    crate::keys::prefix_byte_spec("C-b"@)
}

/// The bindings of the default controls.
pub open spec fn default_bindings() -> Seq<(crate::config::KeyStroke, LiveKeyAction)> {
    crate::keys::usable_bindings(crate::config::default_bindings_spec())
}

/// Translates a piece of input: bytes that waited from the last piece go
/// first; mouse reports are acted on only when `mouse` is set.
pub fn translate_input(
    input: &[u8],
    state: &mut InputState,
    mouse: bool,
    controls: &LiveControls,
    now: u64,
) -> (r: Vec<InputAction>)
    ensures
        (actions_view(r@), final(state)@) == translate_spec(
            input@,
            old(state)@,
            mouse,
            controls.prefix,
            controls.bindings@,
            now,
        ),
{
    let mut bytes: Vec<u8> = Vec::new();
    if state.mouse_pending.len() > 0 {
        append_slice(&mut bytes, state.mouse_pending.as_slice());
        state.mouse_pending = Vec::new();
        state.prompt_pending_since = None;
    } else {
        assert(old(state)@.mouse_pending =~= Seq::<u8>::empty());
    }
    append_slice(&mut bytes, input);
    assert(bytes@ =~= old(state)@.mouse_pending + input@);
    let mut output: Vec<u8> = Vec::new();
    let mut actions: Vec<InputAction> = Vec::new();
    let mut offset: usize = 0;
    assert(actions_view(actions@) =~= Seq::<ActionView>::empty());
    while offset < bytes.len()
        invariant
            offset <= bytes@.len(),
            input_run(
                bytes@,
                offset as int,
                output@,
                actions_view(actions@),
                state@,
                mouse,
                controls.prefix,
                controls.bindings@,
                now,
            ) == translate_spec(
                input@,
                old(state)@,
                mouse,
                controls.prefix,
                controls.bindings@,
                now,
            ),
        decreases bytes.len() - offset,
    {
        match input_step_exec(
            bytes.as_slice(),
            offset,
            &mut output,
            &mut actions,
            state,
            mouse,
            controls,
            now,
        ) {
            Some(o) => {
                offset = o;
            },
            None => {
                return actions;
            },
        }
    }
    flush_output(&mut output, &mut actions);
    actions
}

/// Translates a piece of input for a raw attached client.
pub fn translate_attach_input_with_state_with_controls(
    input: &[u8],
    state: &mut RawAttachInputState,
    controls: &LiveControls,
    now: u64,
) -> (r: Vec<AttachInputAction>)
    ensures
        (actions_view(r@), final(state)@) == translate_spec(
            input@,
            old(state)@,
            false,
            controls.prefix,
            controls.bindings@,
            now,
        ),
{
    translate_input(input, state, false, controls, now)
}

/// Translates a piece of input for a raw attached client with the default
/// controls.
pub fn translate_attach_input_with_state(
    input: &[u8],
    state: &mut RawAttachInputState,
    now: u64,
) -> (r: Vec<AttachInputAction>)
    ensures
        (actions_view(r@), final(state)@) == translate_spec(
            input@,
            old(state)@,
            false,
            default_prefix(),
            default_bindings(),
            now,
        ),
{
    let controls = LiveControls::default();
    translate_input(input, state, false, &controls, now)
}

/// Translates a piece of input for a raw attached client that remembers
/// only whether the prefix key came last.
pub fn translate_attach_input(input: &[u8], saw_prefix: &mut bool, now: u64) -> (r: Vec<
    AttachInputAction,
>)
    ensures
        ({
            let (a, st) = translate_spec(
                input@,
                InputMemory { saw_prefix: *old(saw_prefix), ..fresh_input() },
                false,
                default_prefix(),
                default_bindings(),
                now,
            );
            actions_view(r@) == a && *final(saw_prefix) == st.saw_prefix
        }),
{
    let mut state = InputState {
        saw_prefix: *saw_prefix,
        selecting_pane: false,
        command_prompt: None,
        mouse_pending: Vec::new(),
        prompt_pending_since: None,
    };
    assert(state@ == InputMemory { saw_prefix: *old(saw_prefix), ..fresh_input() });
    let actions = translate_attach_input_with_state(input, &mut state, now);
    *saw_prefix = state.saw_prefix;
    actions
}

/// Translates a piece of input for a live client.
pub fn translate_live_snapshot_input_with_mouse_and_controls(
    input: &[u8],
    state: &mut LiveSnapshotInputState,
    mouse_focus_enabled: bool,
    controls: &LiveControls,
    now: u64,
) -> (r: Vec<LiveSnapshotInputAction>)
    ensures
        (actions_view(r@), final(state)@) == translate_spec(
            input@,
            old(state)@,
            mouse_focus_enabled,
            controls.prefix,
            controls.bindings@,
            now,
        ),
{
    translate_input(input, state, mouse_focus_enabled, controls, now)
}

/// Translates a piece of input for a live client with the default
/// controls.
pub fn translate_live_snapshot_input_with_mouse(
    input: &[u8],
    state: &mut LiveSnapshotInputState,
    mouse_focus_enabled: bool,
    now: u64,
) -> (r: Vec<LiveSnapshotInputAction>)
    ensures
        (actions_view(r@), final(state)@) == translate_spec(
            input@,
            old(state)@,
            mouse_focus_enabled,
            default_prefix(),
            default_bindings(),
            now,
        ),
{
    let controls = LiveControls::default();
    translate_input(input, state, mouse_focus_enabled, &controls, now)
}

/// Translates a piece of input for a live client with mouse focus and the
/// default controls.
pub fn translate_live_snapshot_input(
    input: &[u8],
    state: &mut LiveSnapshotInputState,
    now: u64,
) -> (r: Vec<LiveSnapshotInputAction>)
    ensures
        (actions_view(r@), final(state)@) == translate_spec(
            input@,
            old(state)@,
            true,
            default_prefix(),
            default_bindings(),
            now,
        ),
{
    translate_live_snapshot_input_with_mouse(input, state, true, now)
}

/// What is left of the input when it ends: a pending prefix key is sent on,
/// and bytes that waited for the rest of a sequence are sent too, unless
/// the command prompt is open, which is dropped with them. `None` when
/// nothing is left.
pub open spec fn finish_spec(st: InputMemory, prefix: u8) -> (Option<Seq<u8>>, InputMemory) {
    let out1: Seq<u8> = if st.saw_prefix {
        seq![prefix]
    } else {
        Seq::empty()
    };
    let (out, pending, since) = if st.command_prompt is Some {
        (out1, Seq::<u8>::empty(), None::<u64>)
    } else if st.mouse_pending.len() > 0 {
        (out1 + st.mouse_pending, Seq::<u8>::empty(), st.prompt_pending_since)
    } else {
        (out1, st.mouse_pending, st.prompt_pending_since)
    };
    (
        if out.len() == 0 {
            None
        } else {
            Some(out)
        },
        InputMemory {
            saw_prefix: false,
            selecting_pane: false,
            command_prompt: None,
            mouse_pending: pending,
            prompt_pending_since: since,
        },
    )
}

/// Ends the input of a live client: what is left to forward.
pub fn finish_live_snapshot_input_with_controls(
    state: &mut LiveSnapshotInputState,
    controls: &LiveControls,
) -> (r: Option<Vec<u8>>)
    ensures
        ({
            let (out, st) = finish_spec(old(state)@, controls.prefix);
            &&& match out {
                Some(b) => r matches Some(v) && v@ == b,
                None => r is None,
            }
            &&& final(state)@ == st
        }),
{
    let mut output: Vec<u8> = Vec::new();
    if state.saw_prefix {
        state.saw_prefix = false;
        output.push(controls.prefix);
    }
    state.selecting_pane = false;
    if state.command_prompt.is_some() {
        state.command_prompt = None;
        state.mouse_pending = Vec::new();
        state.prompt_pending_since = None;
    } else if state.mouse_pending.len() > 0 {
        let mut taken: Vec<u8> = Vec::new();
        std::mem::swap(&mut taken, &mut state.mouse_pending);
        append_slice(&mut output, taken.as_slice());
    }
    if output.len() == 0 {
        return None;
    }
    Some(output)
}

/// Ends the input of a live client with the default controls.
pub fn finish_live_snapshot_input(state: &mut LiveSnapshotInputState) -> (r: Option<Vec<u8>>)
    ensures
        ({
            let (out, st) = finish_spec(old(state)@, default_prefix());
            &&& match out {
                Some(b) => r matches Some(v) && v@ == b,
                None => r is None,
            }
            &&& final(state)@ == st
        }),
{
    let controls = LiveControls::default();
    finish_live_snapshot_input_with_controls(state, &controls)
}

/// Whether an escape typed at the open prompt has waited long enough to
/// cancel it.
pub open spec fn prompt_timed_out(st: InputMemory, now: u64) -> bool {
    st.command_prompt is Some && st.mouse_pending.len() > 0 && match st.prompt_pending_since {
        Some(since) => now >= since && now - since >= COPY_MODE_ESCAPE_DISAMBIGUATION_MS,
        None => false,
    }
}

impl InputState {
    /// Cancels the prompt when an escape typed at it has waited long
    /// enough, dropping the waiting bytes.
    pub fn prompt_pending_timeout_action(&mut self, now: u64) -> (r: Option<InputAction>)
        ensures
            prompt_timed_out(old(self)@, now) ==> r == Some(InputAction::CommandPromptCancel)
                && final(self)@ == (InputMemory {
                command_prompt: None,
                mouse_pending: Seq::empty(),
                prompt_pending_since: None,
                ..old(self)@
            }),
            !prompt_timed_out(old(self)@, now) ==> (r is None && final(self)@ == old(self)@),
    {
        let timed_out = self.command_prompt.is_some() && self.mouse_pending.len() > 0 && match self.prompt_pending_since {
            Some(since) => now >= since && now - since >= COPY_MODE_ESCAPE_DISAMBIGUATION_MS,
            None => false,
        };
        if timed_out {
            self.command_prompt = None;
            self.mouse_pending = Vec::new();
            self.prompt_pending_since = None;
            return Some(InputAction::CommandPromptCancel);
        }
        None
    }
}

/// Forgets the prefix key, a pane-number selection and the prompt.
pub fn clear_live_snapshot_command_state(state: &mut LiveSnapshotInputState)
    ensures
        final(state)@ == (InputMemory {
            saw_prefix: false,
            selecting_pane: false,
            command_prompt: None,
            ..old(state)@
        }),
{
    state.saw_prefix = false;
    state.selecting_pane = false;
    state.command_prompt = None;
}

/// Whether focus commands survive when pending input is replayed.
#[derive(Debug, Clone, Copy, PartialEq, Eq, Structural)]
pub enum RawPendingFocus {
    Drop,
    Preserve,
}

/// The bytes that type an action's key again: the prefix unless the key
/// acts without it, then the key; nothing when no key is bound to it.
pub open spec fn bound_action_bytes(
    prefix: u8,
    bindings: Seq<(crate::config::KeyStroke, LiveKeyAction)>,
    action: LiveKeyAction,
) -> Option<Seq<u8>> {
    match crate::keys::key_for_action_spec(bindings, action) {
        None => None,
        Some(k) => Some(
            (if k.alt {
                Seq::<u8>::empty()
            } else {
                seq![prefix]
            }) + crate::keys::key_bytes_spec(k),
        ),
    }
}

/// The bytes of a bound action, or none.
pub open spec fn bound_or_nothing(
    prefix: u8,
    bindings: Seq<(crate::config::KeyStroke, LiveKeyAction)>,
    action: LiveKeyAction,
) -> Seq<u8> {
    match bound_action_bytes(prefix, bindings, action) {
        Some(b) => b,
        None => Seq::empty(),
    }
}

/// The bytes that replay one action.
pub open spec fn replay_bytes(
    a: ActionView,
    focus: RawPendingFocus,
    prefix: u8,
    bindings: Seq<(crate::config::KeyStroke, LiveKeyAction)>,
) -> Seq<u8> {
    match a {
        ActionView::Forward(b) => b,
        ActionView::PaneCommand(c) => if focus == RawPendingFocus::Drop && (c
            == PaneCommand::FocusLeft || c == PaneCommand::FocusDown || c == PaneCommand::FocusUp || c
            == PaneCommand::FocusRight) {
            Seq::empty()
        } else {
            bound_or_nothing(prefix, bindings, LiveKeyAction::PaneCommand(c))
        },
        ActionView::EnterCopyMode { initial_input } => match bound_action_bytes(
            prefix,
            bindings,
            LiveKeyAction::CopyMode,
        ) {
            Some(b) => b + initial_input,
            None => Seq::empty(),
        },
        ActionView::SelectNextPane => bound_or_nothing(prefix, bindings, LiveKeyAction::SelectNextPane),
        ActionView::ShowPaneNumbers => bound_or_nothing(
            prefix,
            bindings,
            LiveKeyAction::ShowPaneNumbers,
        ),
        ActionView::SelectPane(i) => if i < 10 {
            seq![(48 + i) as u8]
        } else {
            Seq::empty()
        },
        ActionView::ShowHelp => bound_or_nothing(prefix, bindings, LiveKeyAction::ShowHelp),
        ActionView::Detach => bound_or_nothing(prefix, bindings, LiveKeyAction::Detach),
        ActionView::CommandPromptStart => bound_or_nothing(prefix, bindings, LiveKeyAction::CommandPrompt),
        ActionView::CommandPromptDispatch { command, trailing_input } => vstd::utf8::encode_utf8(
            command,
        ).push(10u8) + trailing_input,
        ActionView::MousePress(_) => Seq::empty(),
        ActionView::CommandPromptUpdate(_) => Seq::empty(),
        ActionView::CommandPromptCancel => Seq::empty(),
    }
}

/// The bytes that replay the first `n` actions.
pub open spec fn replay_all(
    actions: Seq<ActionView>,
    n: nat,
    focus: RawPendingFocus,
    prefix: u8,
    bindings: Seq<(crate::config::KeyStroke, LiveKeyAction)>,
) -> Seq<u8>
    decreases n,
{
    if n == 0 {
        Seq::empty()
    } else {
        replay_all(actions, (n - 1) as nat, focus, prefix, bindings) + replay_bytes(
            actions[n - 1],
            focus,
            prefix,
            bindings,
        )
    }
}

/// The input to replay after a raw client reconnects: each action typed
/// again, then the prefix key if it came last.
pub open spec fn pending_spec(
    actions: Seq<ActionView>,
    saw_prefix: bool,
    focus: RawPendingFocus,
    prefix: u8,
    bindings: Seq<(crate::config::KeyStroke, LiveKeyAction)>,
) -> Seq<u8> {
    replay_all(actions, actions.len(), focus, prefix, bindings) + if saw_prefix {
        seq![prefix]
    } else {
        Seq::empty()
    }
}

fn push_pending_bound_action(pending: &mut Vec<u8>, controls: &LiveControls, action: LiveKeyAction) -> (r: bool)
    ensures
        match bound_action_bytes(controls.prefix, controls.bindings@, action) {
            Some(b) => r && final(pending)@ == old(pending)@ + b,
            None => !r && final(pending)@ == old(pending)@,
        },
{
    let key = match controls.key_for_action(action) {
        Some(k) => k,
        None => return false,
    };
    let ghost start = pending@;
    if !key.is_global_binding() {
        pending.push(controls.prefix);
    }
    let bytes = crate::keys::key_stroke_input_bytes(key);
    append_slice(pending, bytes.as_slice());
    proof {
        if key.alt {
            assert(start + (Seq::<u8>::empty() + crate::keys::key_bytes_spec(key)) =~= start
                + crate::keys::key_bytes_spec(key));
        } else {
            assert(start.push(controls.prefix) + crate::keys::key_bytes_spec(key) =~= start + (seq![
                controls.prefix,
            ] + crate::keys::key_bytes_spec(key)));
        }
    }
    true
}

/// The input to replay after a raw client reconnects.
pub fn raw_pending_input(
    actions: &[AttachInputAction],
    saw_prefix: bool,
    focus: RawPendingFocus,
    controls: &LiveControls,
) -> (r: Vec<u8>)
    ensures
        r@ == pending_spec(actions_view(actions@), saw_prefix, focus, controls.prefix, controls.bindings@),
{
    let ghost av = actions_view(actions@);
    let mut pending: Vec<u8> = Vec::new();
    let mut i: usize = 0;
    while i < actions.len()
        invariant
            i <= actions@.len(),
            av == actions_view(actions@),
            pending@ == replay_all(av, i as nat, focus, controls.prefix, controls.bindings@),
        decreases actions.len() - i,
    {
        let ghost before = pending@;
        assert(av[i as int] == actions@[i as int]@);
        match &actions[i] {
            InputAction::Forward(bytes) => {
                append_slice(&mut pending, bytes.as_slice());
            },
            InputAction::PaneCommand(c) => {
                let c = *c;
                let is_focus = c == PaneCommand::FocusLeft || c == PaneCommand::FocusDown || c
                    == PaneCommand::FocusUp || c == PaneCommand::FocusRight;
                if !(focus == RawPendingFocus::Drop && is_focus) {
                    push_pending_bound_action(&mut pending, controls, LiveKeyAction::PaneCommand(c));
                } else {
                    assert(pending@ =~= before + Seq::<u8>::empty());
                }
            },
            InputAction::EnterCopyMode { initial_input } => {
                if push_pending_bound_action(&mut pending, controls, LiveKeyAction::CopyMode) {
                    let ghost mid = pending@;
                    append_slice(&mut pending, initial_input.as_slice());
                    assert(pending@ =~= before + (mid.skip(before.len() as int) + initial_input@));
                } else {
                    assert(pending@ =~= before + Seq::<u8>::empty());
                }
            },
            InputAction::SelectNextPane => {
                push_pending_bound_action(&mut pending, controls, LiveKeyAction::SelectNextPane);
            },
            InputAction::ShowPaneNumbers => {
                push_pending_bound_action(&mut pending, controls, LiveKeyAction::ShowPaneNumbers);
            },
            InputAction::SelectPane(index) => {
                if *index < 10 {
                    pending.push(48u8 + (*index as u8));
                } else {
                    assert(pending@ =~= before + Seq::<u8>::empty());
                }
            },
            InputAction::ShowHelp => {
                push_pending_bound_action(&mut pending, controls, LiveKeyAction::ShowHelp);
            },
            InputAction::Detach => {
                push_pending_bound_action(&mut pending, controls, LiveKeyAction::Detach);
            },
            InputAction::CommandPromptStart => {
                push_pending_bound_action(&mut pending, controls, LiveKeyAction::CommandPrompt);
            },
            InputAction::CommandPromptDispatch { command, trailing_input } => {
                let b = command.as_str().as_bytes();
                append_slice(&mut pending, b);
                pending.push(10u8);
                append_slice(&mut pending, trailing_input.as_slice());
            },
            InputAction::MousePress(_) | InputAction::CommandPromptUpdate(_)
            | InputAction::CommandPromptCancel => {
                assert(pending@ =~= before + Seq::<u8>::empty());
            },
        }
        assert(pending@ =~= before + replay_bytes(av[i as int], focus, controls.prefix, controls.bindings@));
        i += 1;
    }
    if saw_prefix {
        pending.push(controls.prefix);
    }
    assert(pending@ =~= pending_spec(av, saw_prefix, focus, controls.prefix, controls.bindings@));
    pending
}

/// Bytes that are neither the prefix nor an escape.
pub open spec fn plain_bytes(s: Seq<u8>, prefix: u8) -> bool {
    forall|i: int| 0 <= i < s.len() ==> #[trigger] s[i] != prefix && s[i] != 27u8
}

/// Outside the prompt, with no prefix and no pane number awaited, plain
/// bytes from an offset on are all gathered and forwarded at the end.
proof fn lemma_plain_run(
    bytes: Seq<u8>,
    offset: int,
    output: Seq<u8>,
    actions: Seq<ActionView>,
    st: InputMemory,
    mouse: bool,
    prefix: u8,
    bindings: Seq<(crate::config::KeyStroke, LiveKeyAction)>,
    now: u64,
)
    requires
        0 <= offset <= bytes.len(),
        plain_bytes(bytes, prefix),
        st.command_prompt is None,
        !st.saw_prefix,
        !st.selecting_pane,
    ensures
        input_run(bytes, offset, output, actions, st, mouse, prefix, bindings, now) == (
            flush(actions, output + bytes.skip(offset)),
            st,
        ),
    decreases bytes.len() - offset,
{
    if offset >= bytes.len() {
        assert(output + bytes.skip(offset) =~= output);
    } else {
        let rest = bytes.skip(offset);
        assert(rest[0] == bytes[offset]);
        assert(bytes[offset] != prefix && bytes[offset] != 27u8);
        assert(rest.take(1) =~= seq![bytes[offset]]);
        lemma_plain_run(
            bytes,
            offset + 1,
            output + rest.take(1),
            actions,
            st,
            mouse,
            prefix,
            bindings,
            now,
        );
        assert(output + rest.take(1) + bytes.skip(offset + 1) =~= output + bytes.skip(offset));
    }
}

/// Input that holds neither the prefix key nor an escape is forwarded as
/// it is, in one piece, and leaves the state as it was, when nothing was
/// pending, typed at the prompt or awaited after the prefix.
pub proof fn law_plain_bytes_are_forwarded(
    input: Seq<u8>,
    st: InputMemory,
    mouse: bool,
    prefix: u8,
    bindings: Seq<(crate::config::KeyStroke, LiveKeyAction)>,
    now: u64,
)
    requires
        plain_bytes(input, prefix),
        st.command_prompt is None,
        !st.saw_prefix,
        !st.selecting_pane,
        st.mouse_pending.len() == 0,
    ensures
        translate_spec(input, st, mouse, prefix, bindings, now) == (
            flush(Seq::<ActionView>::empty(), input),
            st,
        ),
{
    assert(st.mouse_pending + input =~= input);
    lemma_plain_run(input, 0, Seq::empty(), Seq::empty(), st, mouse, prefix, bindings, now);
    assert(Seq::<u8>::empty() + input.skip(0) =~= input);
}

} // verus!
