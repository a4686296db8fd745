//! The request vocabulary spoken between the client and the server, and its
//! mathematical model. Text fields are modelled by their characters, paths
//! by their raw bytes.

use vstd::prelude::*;

verus! {

/// Separates the arguments of a command inside one protocol field.
pub const ARG_SEPARATOR: char = '\u{1f}';

/// The largest text, in bytes, that one `SAVE_BUFFER_TEXT` request carries.
pub const MAX_SAVE_BUFFER_TEXT_BYTES: usize = 1048576;

#[derive(Debug, Clone, Copy, PartialEq, Eq, Structural)]
pub enum SplitDirection {
    Horizontal,
    Vertical,
}

#[derive(Debug, Clone, Copy, PartialEq, Eq, Structural)]
pub enum PaneResizeDirection {
    Left,
    Right,
    Up,
    Down,
}

#[derive(Debug, Clone, Copy, PartialEq, Eq, Structural)]
pub enum PaneDirection {
    Left,
    Right,
    Up,
    Down,
}

#[derive(Debug, Clone, Copy, PartialEq, Eq, Structural)]
pub enum LayoutPreset {
    EvenHorizontal,
    EvenVertical,
    Tiled,
    MainHorizontal,
    MainVertical,
}

#[derive(Debug, Clone, Copy, PartialEq, Eq, Structural)]
pub enum PaneSelectTarget {
    Index(usize),
    Id(usize),
    Direction(PaneDirection),
}

#[derive(Debug, Clone, Copy, PartialEq, Eq, Structural)]
pub enum PaneTarget {
    Active,
    Index(usize),
    Id(usize),
}

#[derive(Debug, Clone, PartialEq, Eq)]
pub enum WindowTarget {
    Active,
    Index(usize),
    Id(usize),
    Name(String),
}

/// A window target with its name as characters.
pub enum WindowTargetView {
    Active,
    Index(usize),
    Id(usize),
    Name(Seq<char>),
}

impl View for WindowTarget {
    type V = WindowTargetView;

    open spec fn view(&self) -> WindowTargetView {
        match self {
            WindowTarget::Active => WindowTargetView::Active,
            WindowTarget::Index(i) => WindowTargetView::Index(*i),
            WindowTarget::Id(i) => WindowTargetView::Id(*i),
            WindowTarget::Name(n) => WindowTargetView::Name(n@),
        }
    }
}

impl WindowTarget {
    /// A copy of this target.
    pub fn duplicate(&self) -> (r: Self)
        ensures
            r@ == self@,
    {
        match self {
            WindowTarget::Active => WindowTarget::Active,
            WindowTarget::Index(i) => WindowTarget::Index(*i),
            WindowTarget::Id(i) => WindowTarget::Id(*i),
            WindowTarget::Name(n) => WindowTarget::Name(n.clone()),
        }
    }
}

#[derive(Debug, Clone, PartialEq, Eq)]
pub struct Target {
    pub session: String,
    pub window: WindowTarget,
    pub pane: PaneTarget,
}

/// A session/window/pane target with its text as characters.
pub struct TargetView {
    pub session: Seq<char>,
    pub window: WindowTargetView,
    pub pane: PaneTarget,
}

impl View for Target {
    type V = TargetView;

    open spec fn view(&self) -> TargetView {
        TargetView { session: self.session@, window: self.window@, pane: self.pane }
    }
}

/// The target that names a session and its active window and pane.
pub open spec fn active_target(session: Seq<char>) -> TargetView {
    TargetView { session, window: WindowTargetView::Active, pane: PaneTarget::Active }
}

impl Target {
    pub fn active(session: String) -> (r: Self)
        ensures
            r@ == active_target(session@),
    {
        Target { session, window: WindowTarget::Active, pane: PaneTarget::Active }
    }

    /// A copy of this target.
    pub fn duplicate(&self) -> (r: Self)
        ensures
            r@ == self@,
    {
        Target { session: self.session.clone(), window: self.window.duplicate(), pane: self.pane }
    }
}

#[derive(Debug, Clone, Copy, PartialEq, Eq, Structural)]
pub enum CaptureMode {
    Screen,
    History,
    All,
}

#[derive(Debug, Clone, PartialEq, Eq)]
pub enum BufferSelection {
    All,
    LineRange { start: isize, end: isize },
    Search { needle: String, match_index: usize },
}

/// A buffer selection with its search text as characters.
pub enum BufferSelectionView {
    All,
    LineRange { start: isize, end: isize },
    Search { needle: Seq<char>, match_index: usize },
}

impl View for BufferSelection {
    type V = BufferSelectionView;

    open spec fn view(&self) -> BufferSelectionView {
        match self {
            BufferSelection::All => BufferSelectionView::All,
            BufferSelection::LineRange { start, end } => BufferSelectionView::LineRange {
                start: *start,
                end: *end,
            },
            BufferSelection::Search { needle, match_index } => BufferSelectionView::Search {
                needle: needle@,
                match_index: *match_index,
            },
        }
    }
}

#[derive(Debug, Clone, PartialEq, Eq)]
pub struct KeyBinding {
    pub key: String,
    pub command: String,
}

#[derive(Debug, Clone, PartialEq, Eq)]
pub struct OptionEntry {
    pub name: String,
    pub value: String,
}

/// The characters of each string, in order.
pub open spec fn views(v: Seq<String>) -> Seq<Seq<char>> {
    v.map_values(|s: String| s@)
}

/// The characters of an optional string.
pub open spec fn opt_view(v: Option<String>) -> Option<Seq<char>> {
    match v {
        Some(s) => Some(s@),
        None => None,
    }
}

/// The bytes of an optional byte vector.
pub open spec fn opt_bytes(v: Option<Vec<u8>>) -> Option<Seq<u8>> {
    match v {
        Some(b) => Some(b@),
        None => None,
    }
}

#[derive(Debug, Clone, PartialEq, Eq)]
#[allow(inconsistent_fields)]
pub enum Request {
    New { session: String, command: Vec<String>, cwd: Option<Vec<u8>> },
    ListSessions { format: Option<String> },
    RenameSession { old_name: String, new_name: String },
    ListClients { session: Option<String>, format: Option<String> },
    DetachClient { session: Option<String>, client_id: Option<usize> },
    Attach { session: String },
    AttachRawState { session: String },
    AttachSnapshot { session: String },
    AttachLayoutSnapshot { session: String },
    AttachLayoutFrame { session: String },
    AttachEvents { session: String },
    AttachRender { session: String },
    List,
    Capture { target: Target, mode: CaptureMode, selection: BufferSelection },
    SaveBuffer { target: Target, buffer: Option<String>, mode: CaptureMode, selection: BufferSelection },
    SaveBufferText { session: String, buffer: Option<String>, text: String },
    CopyMode { session: String, mode: CaptureMode, search: Option<String>, match_index: Option<usize> },
    ListBuffers { format: Option<String> },
    PasteBuffer { target: Target, buffer: Option<String> },
    DeleteBuffer { buffer: String },
    Resize { session: String, cols: u16, rows: u16 },
    ResizePane { target: Target, direction: PaneResizeDirection, amount: usize },
    SelectLayout { session: String, window: WindowTarget, preset: LayoutPreset },
    Send { target: Target, bytes: Vec<u8> },
    Split { target: Target, direction: SplitDirection, command: Vec<String>, cwd: Option<Vec<u8>> },
    ListPanes { session: String, window: WindowTarget, format: Option<String> },
    SelectPane { session: String, window: WindowTarget, target: PaneSelectTarget },
    KillPane { target: Target },
    SwapPane { source: Target, destination: Target },
    MovePane { source: Target, destination: Target, direction: SplitDirection },
    BreakPane { target: Target },
    JoinPane { source: Target, destination: Target, direction: SplitDirection },
    RespawnPane { target: Target, force: bool, command: Vec<String>, cwd: Option<Vec<u8>> },
    NewWindow { session: String, command: Vec<String>, cwd: Option<Vec<u8>> },
    ListWindows { session: String, format: Option<String> },
    SelectWindow { session: String, target: WindowTarget },
    RenameWindow { session: String, target: WindowTarget, name: String },
    NextWindow { session: String },
    PreviousWindow { session: String },
    KillWindow { session: String, target: WindowTarget },
    ZoomPane { target: Target },
    StatusLine { session: String, format: Option<String> },
    DisplayMessage { session: String, format: String },
    ListKeys { format: Option<String> },
    BindKey { key: String, command: String },
    UnbindKey { key: String },
    ShowOptions { format: Option<String> },
    SetOption { name: String, value: String },
    Kill { session: String },
    KillServer,
}

/// A request with its text as characters and its paths and payloads as
/// bytes.
#[allow(inconsistent_fields)]
pub enum RequestView {
    New { session: Seq<char>, command: Seq<Seq<char>>, cwd: Option<Seq<u8>> },
    ListSessions { format: Option<Seq<char>> },
    RenameSession { old_name: Seq<char>, new_name: Seq<char> },
    ListClients { session: Option<Seq<char>>, format: Option<Seq<char>> },
    DetachClient { session: Option<Seq<char>>, client_id: Option<usize> },
    Attach { session: Seq<char> },
    AttachRawState { session: Seq<char> },
    AttachSnapshot { session: Seq<char> },
    AttachLayoutSnapshot { session: Seq<char> },
    AttachLayoutFrame { session: Seq<char> },
    AttachEvents { session: Seq<char> },
    AttachRender { session: Seq<char> },
    List,
    Capture { target: TargetView, mode: CaptureMode, selection: BufferSelectionView },
    SaveBuffer { target: TargetView, buffer: Option<Seq<char>>, mode: CaptureMode, selection: BufferSelectionView },
    SaveBufferText { session: Seq<char>, buffer: Option<Seq<char>>, text: Seq<char> },
    CopyMode { session: Seq<char>, mode: CaptureMode, search: Option<Seq<char>>, match_index: Option<usize> },
    ListBuffers { format: Option<Seq<char>> },
    PasteBuffer { target: TargetView, buffer: Option<Seq<char>> },
    DeleteBuffer { buffer: Seq<char> },
    Resize { session: Seq<char>, cols: u16, rows: u16 },
    ResizePane { target: TargetView, direction: PaneResizeDirection, amount: usize },
    SelectLayout { session: Seq<char>, window: WindowTargetView, preset: LayoutPreset },
    Send { target: TargetView, bytes: Seq<u8> },
    Split { target: TargetView, direction: SplitDirection, command: Seq<Seq<char>>, cwd: Option<Seq<u8>> },
    ListPanes { session: Seq<char>, window: WindowTargetView, format: Option<Seq<char>> },
    SelectPane { session: Seq<char>, window: WindowTargetView, target: PaneSelectTarget },
    KillPane { target: TargetView },
    SwapPane { source: TargetView, destination: TargetView },
    MovePane { source: TargetView, destination: TargetView, direction: SplitDirection },
    BreakPane { target: TargetView },
    JoinPane { source: TargetView, destination: TargetView, direction: SplitDirection },
    RespawnPane { target: TargetView, force: bool, command: Seq<Seq<char>>, cwd: Option<Seq<u8>> },
    NewWindow { session: Seq<char>, command: Seq<Seq<char>>, cwd: Option<Seq<u8>> },
    ListWindows { session: Seq<char>, format: Option<Seq<char>> },
    SelectWindow { session: Seq<char>, target: WindowTargetView },
    RenameWindow { session: Seq<char>, target: WindowTargetView, name: Seq<char> },
    NextWindow { session: Seq<char> },
    PreviousWindow { session: Seq<char> },
    KillWindow { session: Seq<char>, target: WindowTargetView },
    ZoomPane { target: TargetView },
    StatusLine { session: Seq<char>, format: Option<Seq<char>> },
    DisplayMessage { session: Seq<char>, format: Seq<char> },
    ListKeys { format: Option<Seq<char>> },
    BindKey { key: Seq<char>, command: Seq<char> },
    UnbindKey { key: Seq<char> },
    ShowOptions { format: Option<Seq<char>> },
    SetOption { name: Seq<char>, value: Seq<char> },
    Kill { session: Seq<char> },
    KillServer,
}

impl View for Request {
    type V = RequestView;

    open spec fn view(&self) -> RequestView {
        match self {
            Request::New { session, command, cwd } => RequestView::New { session: session@, command: views(command@), cwd: opt_bytes(*cwd) },
            Request::ListSessions { format } => RequestView::ListSessions { format: opt_view(*format) },
            Request::RenameSession { old_name, new_name } => RequestView::RenameSession { old_name: old_name@, new_name: new_name@ },
            Request::ListClients { session, format } => RequestView::ListClients { session: opt_view(*session), format: opt_view(*format) },
            Request::DetachClient { session, client_id } => RequestView::DetachClient { session: opt_view(*session), client_id: *client_id },
            Request::Attach { session } => RequestView::Attach { session: session@ },
            Request::AttachRawState { session } => RequestView::AttachRawState { session: session@ },
            Request::AttachSnapshot { session } => RequestView::AttachSnapshot { session: session@ },
            Request::AttachLayoutSnapshot { session } => RequestView::AttachLayoutSnapshot { session: session@ },
            Request::AttachLayoutFrame { session } => RequestView::AttachLayoutFrame { session: session@ },
            Request::AttachEvents { session } => RequestView::AttachEvents { session: session@ },
            Request::AttachRender { session } => RequestView::AttachRender { session: session@ },
            Request::List => RequestView::List,
            Request::Capture { target, mode, selection } => RequestView::Capture { target: target@, mode: *mode, selection: selection@ },
            Request::SaveBuffer { target, buffer, mode, selection } => RequestView::SaveBuffer { target: target@, buffer: opt_view(*buffer), mode: *mode, selection: selection@ },
            Request::SaveBufferText { session, buffer, text } => RequestView::SaveBufferText { session: session@, buffer: opt_view(*buffer), text: text@ },
            Request::CopyMode { session, mode, search, match_index } => RequestView::CopyMode { session: session@, mode: *mode, search: opt_view(*search), match_index: *match_index },
            Request::ListBuffers { format } => RequestView::ListBuffers { format: opt_view(*format) },
            Request::PasteBuffer { target, buffer } => RequestView::PasteBuffer { target: target@, buffer: opt_view(*buffer) },
            Request::DeleteBuffer { buffer } => RequestView::DeleteBuffer { buffer: buffer@ },
            Request::Resize { session, cols, rows } => RequestView::Resize { session: session@, cols: *cols, rows: *rows },
            Request::ResizePane { target, direction, amount } => RequestView::ResizePane { target: target@, direction: *direction, amount: *amount },
            Request::SelectLayout { session, window, preset } => RequestView::SelectLayout { session: session@, window: window@, preset: *preset },
            Request::Send { target, bytes } => RequestView::Send { target: target@, bytes: bytes@ },
            Request::Split { target, direction, command, cwd } => RequestView::Split { target: target@, direction: *direction, command: views(command@), cwd: opt_bytes(*cwd) },
            Request::ListPanes { session, window, format } => RequestView::ListPanes { session: session@, window: window@, format: opt_view(*format) },
            Request::SelectPane { session, window, target } => RequestView::SelectPane { session: session@, window: window@, target: *target },
            Request::KillPane { target } => RequestView::KillPane { target: target@ },
            Request::SwapPane { source, destination } => RequestView::SwapPane { source: source@, destination: destination@ },
            Request::MovePane { source, destination, direction } => RequestView::MovePane { source: source@, destination: destination@, direction: *direction },
            Request::BreakPane { target } => RequestView::BreakPane { target: target@ },
            Request::JoinPane { source, destination, direction } => RequestView::JoinPane { source: source@, destination: destination@, direction: *direction },
            Request::RespawnPane { target, force, command, cwd } => RequestView::RespawnPane { target: target@, force: *force, command: views(command@), cwd: opt_bytes(*cwd) },
            Request::NewWindow { session, command, cwd } => RequestView::NewWindow { session: session@, command: views(command@), cwd: opt_bytes(*cwd) },
            Request::ListWindows { session, format } => RequestView::ListWindows { session: session@, format: opt_view(*format) },
            Request::SelectWindow { session, target } => RequestView::SelectWindow { session: session@, target: target@ },
            Request::RenameWindow { session, target, name } => RequestView::RenameWindow { session: session@, target: target@, name: name@ },
            Request::NextWindow { session } => RequestView::NextWindow { session: session@ },
            Request::PreviousWindow { session } => RequestView::PreviousWindow { session: session@ },
            Request::KillWindow { session, target } => RequestView::KillWindow { session: session@, target: target@ },
            Request::ZoomPane { target } => RequestView::ZoomPane { target: target@ },
            Request::StatusLine { session, format } => RequestView::StatusLine { session: session@, format: opt_view(*format) },
            Request::DisplayMessage { session, format } => RequestView::DisplayMessage { session: session@, format: format@ },
            Request::ListKeys { format } => RequestView::ListKeys { format: opt_view(*format) },
            Request::BindKey { key, command } => RequestView::BindKey { key: key@, command: command@ },
            Request::UnbindKey { key } => RequestView::UnbindKey { key: key@ },
            Request::ShowOptions { format } => RequestView::ShowOptions { format: opt_view(*format) },
            Request::SetOption { name, value } => RequestView::SetOption { name: name@, value: value@ },
            Request::Kill { session } => RequestView::Kill { session: session@ },
            Request::KillServer => RequestView::KillServer,
        }
    }
}

} // verus!
