//! The decisions of a live-snapshot client: for each event that reaches it
//! (input forwarded, a pane command done, a prompt change, a frame from the
//! render stream, a timeout), how its state changes and what it draws.
//! The client's loop performs the I/O and hands each outcome back here.

use vstd::prelude::*;
use vstd::string::*;
use crate::attach::{LIVE_SNAPSHOT_EVENT_SAFETY_REDRAW_INTERVAL_MS, LIVE_SNAPSHOT_REDRAW_INTERVAL_MS};
use crate::header::{attach_command_prompt_text, prompt_text_spec};

verus! {

/// How long a pane-number or status message stays up, in milliseconds.
pub const PANE_NUMBER_DISPLAY_MS: u64 = 1000;

/// What a live client keeps between events. Times are milliseconds on one
/// clock.
#[derive(Debug, Clone)]
pub struct LiveState {
    pub redraw_paused: bool,
    pub event_stream_active: bool,
    pub fallback_started: bool,
    /// A pane-number or status message and when it expires.
    pub message: Option<(String, u64)>,
    /// The command prompt's line while the prompt is open.
    pub prompt: Option<String>,
    pub help_visible: bool,
    /// When input forwarded under an event stream must be repainted.
    pub repaint_deadline: Option<u64>,
    pub last_redraw: u64,
}

/// The state as values.
pub struct LiveView {
    pub redraw_paused: bool,
    pub event_stream_active: bool,
    pub fallback_started: bool,
    pub message: Option<(Seq<char>, u64)>,
    pub prompt: Option<Seq<char>>,
    pub help_visible: bool,
    pub repaint_deadline: Option<u64>,
    pub last_redraw: u64,
}

/// A timed message as values.
pub open spec fn message_view(m: Option<(String, u64)>) -> Option<(Seq<char>, u64)> {
    match m {
        Some((t, until)) => Some((t@, until)),
        None => None,
    }
}

/// An optional string as values.
pub open spec fn opt_chars(o: Option<String>) -> Option<Seq<char>> {
    match o {
        Some(s) => Some(s@),
        None => None,
    }
}

impl View for LiveState {
    type V = LiveView;

    open spec fn view(&self) -> LiveView {
        LiveView {
            redraw_paused: self.redraw_paused,
            event_stream_active: self.event_stream_active,
            fallback_started: self.fallback_started,
            message: message_view(self.message),
            prompt: opt_chars(self.prompt),
            help_visible: self.help_visible,
            repaint_deadline: self.repaint_deadline,
            last_redraw: self.last_redraw,
        }
    }
}

/// How a dispatched prompt command ended.
#[derive(Debug, Clone)]
pub enum PromptOutcome {
    /// The command ends the attachment.
    Exit,
    /// The command succeeded and has a message to show.
    Message(String),
    /// The command succeeded quietly.
    Quiet,
    /// The command failed with this error.
    Failed(String),
}

/// What reaches the live client, with the outcome of the work the loop
/// already did for it (`resized`: whether the terminal size changed and was
/// sent to the server first).
#[derive(Debug, Clone)]
pub enum LiveEvent {
    /// Bytes were forwarded to the server; `empty` when there were none.
    Forwarded { resized: bool, empty: bool },
    /// A pane command ran, and failed with `error` if there is one.
    PaneCommandDone { error: Option<String> },
    PromptStart,
    PromptUpdate(String),
    PromptCancel,
    PromptDispatched(PromptOutcome),
    NextPaneSelected,
    PaneNumbersShown(String),
    HelpToggled,
    PaneSelected,
    /// A mouse press was seen and the size checked before its pane is found.
    MouseResizeChecked { resized: bool },
    PauseRedraw,
    RedrawNow,
    RedrawHint,
    /// A frame came from the render stream.
    RenderFrame { resized: bool },
    RenderStreamReady,
    RenderStreamUnavailable,
    RenderStreamClosed,
    EventStreamReady,
    EventStreamClosed,
    /// Detach, end of input or a closed channel.
    End,
    /// Nothing arrived before the timeout.
    Timeout { resized: bool },
}

/// An event as values.
pub enum LiveEventView {
    Forwarded { resized: bool, empty: bool },
    PaneCommandDone { error: Option<Seq<char>> },
    PromptStart,
    PromptUpdate(Seq<char>),
    PromptCancel,
    PromptExit,
    PromptMessage(Seq<char>),
    PromptQuiet,
    PromptFailed(Seq<char>),
    NextPaneSelected,
    PaneNumbersShown(Seq<char>),
    HelpToggled,
    PaneSelected,
    MouseResizeChecked { resized: bool },
    PauseRedraw,
    RedrawNow,
    RedrawHint,
    RenderFrame { resized: bool },
    RenderStreamReady,
    RenderStreamUnavailable,
    RenderStreamClosed,
    EventStreamReady,
    EventStreamClosed,
    End,
    Timeout { resized: bool },
}

impl View for LiveEvent {
    type V = LiveEventView;

    open spec fn view(&self) -> LiveEventView {
        match self {
            LiveEvent::Forwarded { resized, empty } => LiveEventView::Forwarded { resized: *resized, empty: *empty },
            LiveEvent::PaneCommandDone { error } => LiveEventView::PaneCommandDone { error: opt_chars(*error) },
            LiveEvent::PromptStart => LiveEventView::PromptStart,
            LiveEvent::PromptUpdate(c) => LiveEventView::PromptUpdate(c@),
            LiveEvent::PromptCancel => LiveEventView::PromptCancel,
            LiveEvent::PromptDispatched(o) => match o {
                PromptOutcome::Exit => LiveEventView::PromptExit,
                PromptOutcome::Message(m) => LiveEventView::PromptMessage(m@),
                PromptOutcome::Quiet => LiveEventView::PromptQuiet,
                PromptOutcome::Failed(e) => LiveEventView::PromptFailed(e@),
            },
            LiveEvent::NextPaneSelected => LiveEventView::NextPaneSelected,
            LiveEvent::PaneNumbersShown(m) => LiveEventView::PaneNumbersShown(m@),
            LiveEvent::HelpToggled => LiveEventView::HelpToggled,
            LiveEvent::PaneSelected => LiveEventView::PaneSelected,
            LiveEvent::MouseResizeChecked { resized } => LiveEventView::MouseResizeChecked { resized: *resized },
            LiveEvent::PauseRedraw => LiveEventView::PauseRedraw,
            LiveEvent::RedrawNow => LiveEventView::RedrawNow,
            LiveEvent::RedrawHint => LiveEventView::RedrawHint,
            LiveEvent::RenderFrame { resized } => LiveEventView::RenderFrame { resized: *resized },
            LiveEvent::RenderStreamReady => LiveEventView::RenderStreamReady,
            LiveEvent::RenderStreamUnavailable => LiveEventView::RenderStreamUnavailable,
            LiveEvent::RenderStreamClosed => LiveEventView::RenderStreamClosed,
            LiveEvent::EventStreamReady => LiveEventView::EventStreamReady,
            LiveEvent::EventStreamClosed => LiveEventView::EventStreamClosed,
            LiveEvent::End => LiveEventView::End,
            LiveEvent::Timeout { resized } => LiveEventView::Timeout { resized: *resized },
        }
    }
}

/// What to draw: nothing; a whole frame fetched from the server with a
/// message line, the help overlay and the prompt's cursor; or the frame
/// from the render stream, with the help overlay if it is up.
#[derive(Debug, Clone)]
pub enum LiveOutput {
    Nothing,
    Frame { message: Option<String>, help: bool, prompt_shown: bool },
    Paint { help: bool },
}

/// Output as values.
pub enum OutputView {
    Nothing,
    Frame { message: Option<Seq<char>>, help: bool, prompt_shown: bool },
    Paint { help: bool },
}

impl View for LiveOutput {
    type V = OutputView;

    open spec fn view(&self) -> OutputView {
        match self {
            LiveOutput::Nothing => OutputView::Nothing,
            LiveOutput::Frame { message, help, prompt_shown } => OutputView::Frame {
                message: opt_chars(*message),
                help: *help,
                prompt_shown: *prompt_shown,
            },
            LiveOutput::Paint { help } => OutputView::Paint { help: *help },
        }
    }
}

/// What the loop does for an event, besides the output: forget what the
/// render output last painted, take the render stream's frame as the
/// current layout, start the fallback event stream, or stop.
#[derive(Debug, Clone)]
pub struct LiveDecision {
    pub reset_render: bool,
    pub adopt_render_frame: bool,
    pub output: LiveOutput,
    pub start_fallback: bool,
    pub stop: bool,
}

/// A decision as values.
pub struct DecisionView {
    pub reset_render: bool,
    pub adopt_render_frame: bool,
    pub output: OutputView,
    pub start_fallback: bool,
    pub stop: bool,
}

impl View for LiveDecision {
    type V = DecisionView;

    open spec fn view(&self) -> DecisionView {
        DecisionView {
            reset_render: self.reset_render,
            adopt_render_frame: self.adopt_render_frame,
            output: self.output@,
            start_fallback: self.start_fallback,
            stop: self.stop,
        }
    }
}

/// `a + b`, or the largest time when that overflows.
pub open spec fn later(a: u64, b: u64) -> u64 {
    if a + b <= u64::MAX {
        (a + b) as u64
    } else {
        u64::MAX
    }
}

/// A message that has not expired at `now`.
pub open spec fn unexpired(m: Option<(Seq<char>, u64)>, now: u64) -> Option<(Seq<char>, u64)> {
    match m {
        Some((t, until)) => if now >= until {
            None
        } else {
            Some((t, until))
        },
        None => None,
    }
}

/// A message shown from `now` for the display time.
pub open spec fn timed(t: Seq<char>, now: u64) -> Option<(Seq<char>, u64)> {
    Some((t, later(now, PANE_NUMBER_DISPLAY_MS)))
}

/// A whole frame drawn at `now`: an expired message is dropped, the
/// prompt's line or else the message is shown, and the redraw time is now.
pub open spec fn drawn(s: LiveView, now: u64) -> (LiveView, OutputView) {
    let m = unexpired(s.message, now);
    let shown = match s.prompt {
        Some(p) => Some(p),
        None => match m {
            Some((t, _)) => Some(t),
            None => None,
        },
    };
    (
        LiveView { message: m, last_redraw: now, ..s },
        OutputView::Frame { message: shown, help: s.help_visible, prompt_shown: s.prompt is Some },
    )
}

/// A decision that only draws `out`.
pub open spec fn only(out: OutputView) -> DecisionView {
    DecisionView { reset_render: false, adopt_render_frame: false, output: out, start_fallback: false, stop: false }
}

/// Draws a whole frame unless redraws are paused; either way the redraw
/// time becomes now.
pub open spec fn draw_unless_paused(s: LiveView, now: u64) -> (LiveView, DecisionView) {
    if !s.redraw_paused {
        let (t, out) = drawn(s, now);
        (t, only(out))
    } else {
        (LiveView { last_redraw: now, ..s }, only(OutputView::Nothing))
    }
}

/// Draws a whole frame, paused or not.
pub open spec fn draw_always(s: LiveView, now: u64) -> (LiveView, DecisionView) {
    let (t, out) = drawn(s, now);
    (t, only(out))
}

/// A whole frame drawn and any pending repaint dropped.
pub open spec fn repaint(s: LiveView, now: u64) -> (LiveView, DecisionView) {
    let (t, out) = drawn(s, now);
    (LiveView { repaint_deadline: None, ..t }, only(out))
}

/// Starts the fallback event stream once.
pub open spec fn fallback(s: LiveView) -> (LiveView, DecisionView) {
    if !s.fallback_started {
        (
            LiveView { fallback_started: true, ..s },
            DecisionView { start_fallback: true, ..only(OutputView::Nothing) },
        )
    } else {
        (s, only(OutputView::Nothing))
    }
}

/// How the state changes and what is drawn for an event at `now`.
pub open spec fn live_next(s: LiveView, e: LiveEventView, now: u64) -> (LiveView, DecisionView) {
    let nothing = only(OutputView::Nothing);
    match e {
        LiveEventView::Forwarded { resized, empty } => {
            let due = !s.event_stream_active && now >= s.last_redraw + LIVE_SNAPSHOT_REDRAW_INTERVAL_MS;
            if !s.redraw_paused && (resized || due) {
                repaint(s, now)
            } else if s.event_stream_active && !empty {
                (
                    LiveView {
                        repaint_deadline: Some(later(now, LIVE_SNAPSHOT_EVENT_SAFETY_REDRAW_INTERVAL_MS)),
                        ..s
                    },
                    nothing,
                )
            } else {
                (s, nothing)
            }
        },
        LiveEventView::PaneCommandDone { error } => draw_unless_paused(
            LiveView {
                message: match error {
                    Some(t) => timed(t, now),
                    None => None,
                },
                ..s
            },
            now,
        ),
        LiveEventView::PromptStart => draw_unless_paused(
            LiveView { help_visible: false, message: None, prompt: Some(prompt_text_spec(seq![])), ..s },
            now,
        ),
        LiveEventView::PromptUpdate(c) => draw_unless_paused(
            LiveView { help_visible: false, message: None, prompt: Some(prompt_text_spec(c)), ..s },
            now,
        ),
        LiveEventView::PromptCancel => draw_unless_paused(
            LiveView { help_visible: false, prompt: None, message: timed("cancelled"@, now), ..s },
            now,
        ),
        LiveEventView::PromptExit => (
            LiveView { help_visible: false, prompt: None, ..s },
            DecisionView { stop: true, ..nothing },
        ),
        LiveEventView::PromptMessage(m) => draw_unless_paused(
            LiveView { help_visible: false, prompt: None, message: timed(m, now), ..s },
            now,
        ),
        LiveEventView::PromptQuiet => draw_unless_paused(
            LiveView { help_visible: false, prompt: None, message: None, ..s },
            now,
        ),
        LiveEventView::PromptFailed(m) => draw_unless_paused(
            LiveView { help_visible: false, prompt: None, message: timed(m, now), ..s },
            now,
        ),
        LiveEventView::NextPaneSelected => draw_unless_paused(LiveView { message: None, ..s }, now),
        LiveEventView::PaneNumbersShown(m) => draw_always(LiveView { message: timed(m, now), ..s }, now),
        LiveEventView::HelpToggled => draw_always(
            LiveView { help_visible: !s.help_visible, message: None, prompt: None, ..s },
            now,
        ),
        LiveEventView::PaneSelected => draw_unless_paused(LiveView { message: None, ..s }, now),
        LiveEventView::MouseResizeChecked { resized } => if resized && !s.redraw_paused {
            draw_always(s, now)
        } else {
            (s, nothing)
        },
        LiveEventView::PauseRedraw => (LiveView { redraw_paused: true, ..s }, nothing),
        LiveEventView::RedrawNow => draw_always(LiveView { redraw_paused: false, ..s }, now),
        LiveEventView::RedrawHint => if !s.redraw_paused {
            repaint(s, now)
        } else {
            (s, nothing)
        },
        LiveEventView::RenderFrame { resized } => {
            let t = LiveView { event_stream_active: true, ..s };
            if t.redraw_paused {
                (t, DecisionView { reset_render: resized, ..nothing })
            } else {
                let active = match t.message {
                    Some((_, until)) => now < until,
                    None => false,
                };
                if t.prompt is Some || active {
                    let (u, out) = repaint(t, now);
                    (u, DecisionView { reset_render: resized, adopt_render_frame: true, ..out })
                } else {
                    let m = if !t.help_visible {
                        None
                    } else {
                        t.message
                    };
                    (
                        LiveView { message: m, last_redraw: now, repaint_deadline: None, ..t },
                        DecisionView {
                            reset_render: resized,
                            adopt_render_frame: true,
                            output: OutputView::Paint { help: t.help_visible },
                            ..nothing
                        },
                    )
                }
            }
        },
        LiveEventView::RenderStreamReady => (s, nothing),
        LiveEventView::RenderStreamUnavailable => fallback(s),
        LiveEventView::RenderStreamClosed => fallback(LiveView { event_stream_active: false, ..s }),
        LiveEventView::EventStreamReady => (LiveView { event_stream_active: true, ..s }, nothing),
        LiveEventView::EventStreamClosed => (LiveView { event_stream_active: false, ..s }, nothing),
        LiveEventView::End => (s, DecisionView { stop: true, ..nothing }),
        LiveEventView::Timeout { resized } => {
            let expired = match s.message {
                Some((_, until)) => now >= until,
                None => false,
            };
            let due = match s.repaint_deadline {
                Some(d) => now >= d,
                None => false,
            };
            if !s.redraw_paused && (!s.event_stream_active || resized || expired || due) {
                repaint(s, now)
            } else {
                (s, nothing)
            }
        },
    }
}

/// While redraws are paused, only the pane numbers, the help overlay and
/// an explicit redraw draw anything, and nothing is painted from the render
/// stream.
pub proof fn law_paused_draws_only_on_request(s: LiveView, e: LiveEventView, now: u64)
    requires
        s.redraw_paused,
        !(e is PaneNumbersShown),
        !(e is HelpToggled),
        !(e is RedrawNow),
    ensures
        live_next(s, e, now).1.output is Nothing,
{
}

/// Whenever a whole frame is drawn while the command prompt is open, the
/// message line it shows is the prompt's line.
pub proof fn law_open_prompt_is_shown(s: LiveView, e: LiveEventView, now: u64)
    ensures
        ({
            let (t, d) = live_next(s, e, now);
            d.output is Frame && t.prompt is Some ==> d.output->Frame_message == t.prompt
        }),
{
}

/// A whole frame never shows a message that has expired.
pub proof fn law_frames_show_no_expired_message(s: LiveView, e: LiveEventView, now: u64)
    ensures
        ({
            let (t, d) = live_next(s, e, now);
            d.output is Frame ==> match t.message {
                Some((_, until)) => now < until,
                None => true,
            }
        }),
{
}

/// Toggling help twice gives back the overlay's visibility.
pub proof fn law_help_toggle_twice(s: LiveView, now: u64, later_now: u64)
    ensures
        live_next(live_next(s, LiveEventView::HelpToggled, now).0, LiveEventView::HelpToggled, later_now).0.help_visible
            == s.help_visible,
{
}

/// A copy of an optional string.
fn copy_opt(o: &Option<String>) -> (r: Option<String>)
    ensures
        opt_chars(r) == opt_chars(*o),
{
    match o {
        Some(s) => Some(s.clone()),
        None => None,
    }
}

/// `a + b`, or the largest time when that overflows.
fn later_ms(a: u64, b: u64) -> (r: u64)
    ensures
        r == later(a, b),
{
    a.saturating_add(b)
}

impl LiveState {
    /// The state of a client that has just drawn its first frame at `now`.
    pub fn new(now: u64) -> (r: LiveState)
        ensures
            r@ == (LiveView {
                redraw_paused: false,
                event_stream_active: false,
                fallback_started: false,
                message: None,
                prompt: None,
                help_visible: false,
                repaint_deadline: None,
                last_redraw: now,
            }),
    {
        LiveState {
            redraw_paused: false,
            event_stream_active: false,
            fallback_started: false,
            message: None,
            prompt: None,
            help_visible: false,
            repaint_deadline: None,
            last_redraw: now,
        }
    }

    /// How long to wait for the next event, in milliseconds.
    pub fn timeout(&self, now: u64) -> (r: u64)
        ensures
            r == crate::attach::redraw_timeout_spec(
                self.event_stream_active,
                self.redraw_paused,
                match self.message {
                    Some((_, until)) => Some(until),
                    None => None,
                },
                self.repaint_deadline,
                now,
            ),
    {
        let expiry = match &self.message {
            Some((_, until)) => Some(*until),
            None => None,
        };
        crate::attach::live_snapshot_redraw_timeout(
            self.event_stream_active,
            self.redraw_paused,
            expiry,
            self.repaint_deadline,
            now,
        )
    }

    /// Draws a whole frame at `now`.
    fn draw(&mut self, now: u64) -> (r: LiveOutput)
        ensures
            final(self)@ == drawn(old(self)@, now).0,
            r@ == drawn(old(self)@, now).1,
    {
        let shown = crate::attach::active_live_message(&mut self.message, copy_opt(&self.prompt), now);
        self.last_redraw = now;
        LiveOutput::Frame { message: shown, help: self.help_visible, prompt_shown: self.prompt.is_some() }
    }

    /// Draws a whole frame unless redraws are paused.
    fn draw_unless_paused(&mut self, now: u64) -> (r: LiveDecision)
        ensures
            final(self)@ == draw_unless_paused(old(self)@, now).0,
            r@ == draw_unless_paused(old(self)@, now).1,
    {
        if !self.redraw_paused {
            let out = self.draw(now);
            decide(out)
        } else {
            self.last_redraw = now;
            decide(LiveOutput::Nothing)
        }
    }

    /// Draws a whole frame and drops any pending repaint.
    fn repaint(&mut self, now: u64) -> (r: LiveDecision)
        ensures
            final(self)@ == repaint(old(self)@, now).0,
            r@ == repaint(old(self)@, now).1,
    {
        let out = self.draw(now);
        self.repaint_deadline = None;
        decide(out)
    }

    /// Starts the fallback event stream once.
    fn fallback(&mut self) -> (r: LiveDecision)
        ensures
            final(self)@ == fallback(old(self)@).0,
            r@ == fallback(old(self)@).1,
    {
        if !self.fallback_started {
            self.fallback_started = true;
            LiveDecision { start_fallback: true, ..decide(LiveOutput::Nothing) }
        } else {
            decide(LiveOutput::Nothing)
        }
    }

    /// Handles one event at `now`: changes the state and says what to do.
    pub fn step(&mut self, event: LiveEvent, now: u64) -> (r: LiveDecision)
        ensures
            final(self)@ == live_next(old(self)@, event@, now).0,
            r@ == live_next(old(self)@, event@, now).1,
    {
        match event {
            LiveEvent::Forwarded { resized, empty } => {
                let due = !self.event_stream_active && now >= self.last_redraw
                    && now - self.last_redraw >= LIVE_SNAPSHOT_REDRAW_INTERVAL_MS;
                if !self.redraw_paused && (resized || due) {
                    self.repaint(now)
                } else if self.event_stream_active && !empty {
                    self.repaint_deadline = Some(later_ms(now, LIVE_SNAPSHOT_EVENT_SAFETY_REDRAW_INTERVAL_MS));
                    decide(LiveOutput::Nothing)
                } else {
                    decide(LiveOutput::Nothing)
                }
            },
            LiveEvent::PaneCommandDone { error } => {
                self.message = match error {
                    Some(t) => Some((t, later_ms(now, PANE_NUMBER_DISPLAY_MS))),
                    None => None,
                };
                self.draw_unless_paused(now)
            },
            LiveEvent::PromptStart => {
                self.help_visible = false;
                self.message = None;
                let p = attach_command_prompt_text("");
                proof {
                    reveal_strlit("");
                    assert(""@ =~= Seq::<char>::empty());
                }
                self.prompt = Some(p);
                self.draw_unless_paused(now)
            },
            LiveEvent::PromptUpdate(c) => {
                self.help_visible = false;
                self.message = None;
                self.prompt = Some(attach_command_prompt_text(c.as_str()));
                self.draw_unless_paused(now)
            },
            LiveEvent::PromptCancel => {
                self.help_visible = false;
                self.prompt = None;
                self.message = Some((String::from_str("cancelled"), later_ms(now, PANE_NUMBER_DISPLAY_MS)));
                self.draw_unless_paused(now)
            },
            LiveEvent::PromptDispatched(outcome) => {
                self.help_visible = false;
                self.prompt = None;
                match outcome {
                    PromptOutcome::Exit => LiveDecision { stop: true, ..decide(LiveOutput::Nothing) },
                    PromptOutcome::Message(m) => {
                        self.message = Some((m, later_ms(now, PANE_NUMBER_DISPLAY_MS)));
                        self.draw_unless_paused(now)
                    },
                    PromptOutcome::Quiet => {
                        self.message = None;
                        self.draw_unless_paused(now)
                    },
                    PromptOutcome::Failed(e) => {
                        self.message = Some((e, later_ms(now, PANE_NUMBER_DISPLAY_MS)));
                        self.draw_unless_paused(now)
                    },
                }
            },
            LiveEvent::NextPaneSelected => {
                self.message = None;
                self.draw_unless_paused(now)
            },
            LiveEvent::PaneNumbersShown(m) => {
                self.message = Some((m, later_ms(now, PANE_NUMBER_DISPLAY_MS)));
                let out = self.draw(now);
                decide(out)
            },
            LiveEvent::HelpToggled => {
                self.help_visible = !self.help_visible;
                self.message = None;
                self.prompt = None;
                let out = self.draw(now);
                decide(out)
            },
            LiveEvent::PaneSelected => {
                self.message = None;
                self.draw_unless_paused(now)
            },
            LiveEvent::MouseResizeChecked { resized } => {
                if resized && !self.redraw_paused {
                    let out = self.draw(now);
                    decide(out)
                } else {
                    decide(LiveOutput::Nothing)
                }
            },
            LiveEvent::PauseRedraw => {
                self.redraw_paused = true;
                decide(LiveOutput::Nothing)
            },
            LiveEvent::RedrawNow => {
                self.redraw_paused = false;
                let out = self.draw(now);
                decide(out)
            },
            LiveEvent::RedrawHint => {
                if !self.redraw_paused {
                    self.repaint(now)
                } else {
                    decide(LiveOutput::Nothing)
                }
            },
            LiveEvent::RenderFrame { resized } => {
                crate::attach::handle_render_frame_received(&mut self.event_stream_active);
                if self.redraw_paused {
                    LiveDecision { reset_render: resized, ..decide(LiveOutput::Nothing) }
                } else {
                    let active = match &self.message {
                        Some((_, until)) => now < *until,
                        None => false,
                    };
                    if self.prompt.is_some() || active {
                        let d = self.repaint(now);
                        LiveDecision { reset_render: resized, adopt_render_frame: true, ..d }
                    } else {
                        if !self.help_visible {
                            self.message = None;
                        }
                        self.last_redraw = now;
                        self.repaint_deadline = None;
                        LiveDecision {
                            reset_render: resized,
                            adopt_render_frame: true,
                            output: LiveOutput::Paint { help: self.help_visible },
                            start_fallback: false,
                            stop: false,
                        }
                    }
                }
            },
            LiveEvent::RenderStreamReady => {
                crate::attach::handle_render_stream_ready(&mut self.event_stream_active);
                decide(LiveOutput::Nothing)
            },
            LiveEvent::RenderStreamUnavailable => self.fallback(),
            LiveEvent::RenderStreamClosed => {
                self.event_stream_active = false;
                self.fallback()
            },
            LiveEvent::EventStreamReady => {
                self.event_stream_active = true;
                decide(LiveOutput::Nothing)
            },
            LiveEvent::EventStreamClosed => {
                self.event_stream_active = false;
                decide(LiveOutput::Nothing)
            },
            LiveEvent::End => LiveDecision { stop: true, ..decide(LiveOutput::Nothing) },
            LiveEvent::Timeout { resized } => {
                let expired = match &self.message {
                    Some((_, until)) => now >= *until,
                    None => false,
                };
                let due = match self.repaint_deadline {
                    Some(d) => now >= d,
                    None => false,
                };
                if !self.redraw_paused && (!self.event_stream_active || resized || expired || due) {
                    self.repaint(now)
                } else {
                    decide(LiveOutput::Nothing)
                }
            },
        }
    }
}

/// A decision that only draws `out`.
fn decide(out: LiveOutput) -> (r: LiveDecision)
    ensures
        r@ == only(out@),
{
    LiveDecision { reset_render: false, adopt_render_frame: false, output: out, start_fallback: false, stop: false }
}

} // verus!
