//! The decisions of a raw attached client after the outside work for one
//! of its input actions: go on with the next action, detach, reconnect
//! with the input still to be replayed, or feed input back in.

use vstd::prelude::*;
use crate::input::{actions_view, pending_spec, raw_pending_input, AttachInputAction, RawPendingFocus};
use crate::keys::LiveControls;

verus! {

/// What a raw client does next.
#[derive(Debug, Clone, PartialEq, Eq)]
pub enum RawStep {
    /// Go on with the next action.
    Next,
    /// End the attachment.
    Detach,
    /// Reconnect, replaying these bytes first.
    Reconnect(Vec<u8>),
    /// Stop handling these actions and translate these bytes instead.
    Refeed(Vec<u8>),
}

/// A step as values.
pub enum RawStepView {
    Next,
    Detach,
    Reconnect(Seq<u8>),
    Refeed(Seq<u8>),
}

impl View for RawStep {
    type V = RawStepView;

    open spec fn view(&self) -> RawStepView {
        match self {
            RawStep::Next => RawStepView::Next,
            RawStep::Detach => RawStepView::Detach,
            RawStep::Reconnect(b) => RawStepView::Reconnect(b@),
            RawStep::Refeed(b) => RawStepView::Refeed(b@),
        }
    }
}

/// The bytes the actions after the current one still ask for, replayed on
/// reconnecting.
pub open spec fn replay(rest: Seq<AttachInputAction>, saw_prefix: bool, controls: LiveControls) -> Seq<u8> {
    pending_spec(actions_view(rest), saw_prefix, RawPendingFocus::Preserve, controls.prefix, controls.bindings@)
}

/// After a pane request or a pane selection: when the server carried it
/// out the layout changed, so the client reconnects replaying the rest.
pub open spec fn after_pane_request_spec(
    done: bool,
    rest: Seq<AttachInputAction>,
    saw_prefix: bool,
    controls: LiveControls,
) -> RawStepView {
    if done {
        RawStepView::Reconnect(replay(rest, saw_prefix, controls))
    } else {
        RawStepView::Next
    }
}

/// After a pane request or a pane selection.
pub fn raw_after_pane_request(
    done: bool,
    rest: &[AttachInputAction],
    saw_prefix: bool,
    controls: &LiveControls,
) -> (r: RawStep)
    ensures
        r@ == after_pane_request_spec(done, rest@, saw_prefix, *controls),
{
    if done {
        RawStep::Reconnect(raw_pending_input(rest, saw_prefix, RawPendingFocus::Preserve, controls))
    } else {
        RawStep::Next
    }
}

/// After a prompt command (`succeeded` with its reconnect and exit words,
/// or failed): an exit detaches; a reconnect replays the prompt's trailing
/// input and then the rest; otherwise trailing input is fed back in.
pub open spec fn after_dispatch_spec(
    succeeded: bool,
    reconnect: bool,
    exit_attach: bool,
    trailing: Seq<u8>,
    rest: Seq<AttachInputAction>,
    saw_prefix: bool,
    controls: LiveControls,
) -> RawStepView {
    if succeeded && exit_attach {
        RawStepView::Detach
    } else if succeeded && reconnect {
        RawStepView::Reconnect(trailing + replay(rest, saw_prefix, controls))
    } else if trailing.len() > 0 {
        RawStepView::Refeed(trailing)
    } else {
        RawStepView::Next
    }
}

/// After a prompt command.
pub fn raw_after_dispatch(
    succeeded: bool,
    reconnect: bool,
    exit_attach: bool,
    trailing: &[u8],
    rest: &[AttachInputAction],
    saw_prefix: bool,
    controls: &LiveControls,
) -> (r: RawStep)
    ensures
        r@ == after_dispatch_spec(succeeded, reconnect, exit_attach, trailing@, rest@, saw_prefix, *controls),
{
    if succeeded && exit_attach {
        return RawStep::Detach;
    }
    if succeeded && reconnect {
        let mut out: Vec<u8> = Vec::new();
        let mut i: usize = 0;
        while i < trailing.len()
            invariant
                i <= trailing.len(),
                out@ == trailing@.take(i as int),
            decreases trailing.len() - i,
        {
            out.push(trailing[i]);
            i += 1;
            assert(trailing@.take(i as int) == trailing@.take(i - 1).push(trailing@[i - 1]));
        }
        assert(trailing@.take(trailing.len() as int) =~= trailing@);
        let mut pending = raw_pending_input(rest, saw_prefix, RawPendingFocus::Preserve, controls);
        out.append(&mut pending);
        return RawStep::Reconnect(out);
    }
    if trailing.len() > 0 {
        let mut copy: Vec<u8> = Vec::new();
        let mut i: usize = 0;
        while i < trailing.len()
            invariant
                i <= trailing.len(),
                copy@ == trailing@.take(i as int),
            decreases trailing.len() - i,
        {
            copy.push(trailing[i]);
            i += 1;
            assert(trailing@.take(i as int) == trailing@.take(i - 1).push(trailing@[i - 1]));
        }
        assert(trailing@.take(trailing.len() as int) =~= trailing@);
        return RawStep::Refeed(copy);
    }
    RawStep::Next
}

} // verus!
