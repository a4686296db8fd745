//! The session popup: its rows and grouping, the selection and text-entry
//! state behind it, filtering, and the lines it renders.

use vstd::prelude::*;
use vstd::string::*;
use crate::text::{chars_of, contains_seq, push_char, string_from_chars};
use crate::wire::concat_str;

verus! {

/// The smallest number of cells an item's title takes, so that short titles
/// pad out and the summaries line up.
pub const TITLE_WIDTH: usize = 18;

/// What the display width of a character is, as the `unicode-width` crate
/// reports it (`None` for control characters).
pub uninterp spec fn unicode_char_width(c: char) -> Option<usize>;

/// The display width of a character (`UnicodeWidthChar::width`): the crate
/// gives control characters (below U+0020 and from U+007F to U+009F) no
/// width, printable ASCII one cell, and every other character a width from
/// its tables, which hold bytes.
#[verifier::external_body]
pub(crate) fn char_width(c: char) -> (r: Option<usize>)
    ensures
        r == unicode_char_width(c),
        r matches Some(w) ==> w <= 255,
        (c as u32) < 0x20 ==> r is None,
        0x20 <= (c as u32) < 0x7f ==> r == Some(1usize),
        0x7f <= (c as u32) < 0xa0 ==> r is None,
        (c as u32) >= 0xa0 ==> r is Some,
{
    unicode_width::UnicodeWidthChar::width(c)
}

/// The cells a character takes in the popup: its width, and at least one.
pub open spec fn cells(c: char) -> nat {
    match unicode_char_width(c) {
        Some(w) => if w >= 1 {
            w as nat
        } else {
            1
        },
        None => 1,
    }
}

/// The cells a character takes: its width, and at least one.
pub(crate) fn char_cells(c: char) -> (r: usize)
    ensures
        r == cells(c),
        1 <= r <= 255,
        0x20 <= (c as u32) < 0x7f ==> r == 1,
{
    match char_width(c) {
        Some(w) => if w >= 1 {
            w
        } else {
            1
        },
        None => 1,
    }
}

/// The cells a text takes.
pub open spec fn text_cells(s: Seq<char>) -> nat
    decreases s.len(),
{
    if s.len() == 0 {
        0
    } else {
        text_cells(s.drop_last()) + cells(s.last())
    }
}

/// `n` spaces.
pub open spec fn spaces(n: nat) -> Seq<char> {
    Seq::new(n, |i: int| ' ')
}

/// A title padded with spaces to at least `min` cells; a longer title is
/// left whole.
pub open spec fn pad_title_spec(text: Seq<char>, min: nat) -> Seq<char> {
    if text_cells(text) < min {
        text + spaces((min - text_cells(text)) as nat)
    } else {
        text
    }
}

/// Pads a title with spaces to at least `min` display cells.
pub fn pad_title(text: &str, min: usize) -> (r: String)
    ensures
        r@ == pad_title_spec(text@, min as nat),
{
    let chars = chars_of(text);
    let mut width: usize = 0;
    let mut i: usize = 0;
    while i < chars.len()
        invariant
            i <= chars.len(),
            chars@ == text@,
            width == (if text_cells(chars@.take(i as int)) < min {
                text_cells(chars@.take(i as int))
            } else {
                min as nat
            }),
        decreases chars.len() - i,
    {
        assert(chars@.take(i + 1).drop_last() =~= chars@.take(i as int));
        let w = match char_width(chars[i]) {
            Some(w) => if w >= 1 {
                w
            } else {
                1
            },
            None => 1,
        };
        if width < min {
            width = if w >= min - width {
                min
            } else {
                width + w
            };
        }
        i = i + 1;
    }
    assert(chars@.take(i as int) =~= text@);
    let mut out = String::from_str(text);
    if width < min {
        let mut k: usize = 0;
        let pad = min - width;
        assert(out@ =~= text@ + spaces(0));
        while k < pad
            invariant
                k <= pad,
                out@ == text@ + spaces(k as nat),
            decreases pad - k,
        {
            push_char(&mut out, ' ');
            k = k + 1;
            assert(out@ =~= text@ + spaces(k as nat));
        }
    }
    out
}


/// Which sessions the popup lists.
#[derive(Debug, Clone, Copy, PartialEq, Eq, Structural)]
pub enum PopupMode {
    Attention,
    Workspace,
    Tree,
}

/// How the popup groups its rows.
#[derive(Debug, Clone, Copy, PartialEq, Eq, Structural)]
pub enum PopupGrouping {
    Attention,
    Repo,
}

/// The state of a row, most urgent first.
#[derive(Debug, Clone, Copy, PartialEq, Eq, PartialOrd, Ord, Structural)]
pub enum PopupStateKind {
    NeedsInput,
    Alert,
    Ready,
    Failed,
    Working,
    Completed,
    Idle,
    Detached,
    Previous,
    Stale,
}

/// A group header, or an item that can (or cannot) be acted on.
#[derive(Debug, Clone, Copy, PartialEq, Eq, Structural)]
pub enum PopupRowKind {
    Header,
    Item,
    DisabledItem,
}

/// Where a row's information came from.
#[derive(Debug, Clone, Copy, PartialEq, Eq, Structural)]
pub enum PopupRowSource {
    Mux,
    Registry,
    AgentEvent,
}

/// The session, window and pane a row stands for.
#[derive(Debug, Clone, PartialEq, Eq)]
pub struct PopupTarget {
    pub session: String,
    pub window_index: Option<usize>,
    pub window_id: Option<usize>,
    pub pane_index: Option<usize>,
    pub pane_id: Option<usize>,
}

/// A popup target with its session name as characters.
pub struct PopupTargetView {
    pub session: Seq<char>,
    pub window_index: Option<usize>,
    pub window_id: Option<usize>,
    pub pane_index: Option<usize>,
    pub pane_id: Option<usize>,
}

impl View for PopupTarget {
    type V = PopupTargetView;

    open spec fn view(&self) -> PopupTargetView {
        PopupTargetView {
            session: self.session@,
            window_index: self.window_index,
            window_id: self.window_id,
            pane_index: self.pane_index,
            pane_id: self.pane_id,
        }
    }
}

impl PopupTarget {
    /// A copy of this target.
    pub fn duplicate(&self) -> (r: Self)
        ensures
            r@ == self@,
    {
        PopupTarget {
            session: self.session.clone(),
            window_index: self.window_index,
            window_id: self.window_id,
            pane_index: self.pane_index,
            pane_id: self.pane_id,
        }
    }
}

/// An optional target by its view.
pub open spec fn opt_popup_target(t: Option<PopupTarget>) -> Option<PopupTargetView> {
    match t {
        Some(t) => Some(t@),
        None => None,
    }
}

/// One row of the popup. The repository is held as its path text.
#[derive(Debug, Clone, PartialEq, Eq)]
pub struct PopupRow {
    pub id: String,
    pub kind: PopupRowKind,
    pub repo_path: Option<String>,
    pub target: Option<PopupTarget>,
    pub state: PopupStateKind,
    pub source: PopupRowSource,
    pub title: String,
    pub summary: String,
    pub last_changed: Option<u64>,
    pub attachable: bool,
    pub pinned: bool,
}

/// A popup row with its text as characters.
pub struct PopupRowView {
    pub id: Seq<char>,
    pub kind: PopupRowKind,
    pub repo_path: Option<Seq<char>>,
    pub target: Option<PopupTargetView>,
    pub state: PopupStateKind,
    pub source: PopupRowSource,
    pub title: Seq<char>,
    pub summary: Seq<char>,
    pub last_changed: Option<u64>,
    pub attachable: bool,
    pub pinned: bool,
}

impl View for PopupRow {
    type V = PopupRowView;

    open spec fn view(&self) -> PopupRowView {
        PopupRowView {
            id: self.id@,
            kind: self.kind,
            repo_path: crate::protocol::opt_view(self.repo_path),
            target: opt_popup_target(self.target),
            state: self.state,
            source: self.source,
            title: self.title@,
            summary: self.summary@,
            last_changed: self.last_changed,
            attachable: self.attachable,
            pinned: self.pinned,
        }
    }
}

fn clone_opt_string(o: &Option<String>) -> (r: Option<String>)
    ensures
        crate::protocol::opt_view(r) == crate::protocol::opt_view(*o),
{
    match o {
        Some(s) => Some(s.clone()),
        None => None,
    }
}

impl PopupRow {
    /// A copy of this row.
    pub fn duplicate(&self) -> (r: Self)
        ensures
            r@ == self@,
    {
        PopupRow {
            id: self.id.clone(),
            kind: self.kind,
            repo_path: clone_opt_string(&self.repo_path),
            target: match &self.target {
                Some(t) => Some(t.duplicate()),
                None => None,
            },
            state: self.state,
            source: self.source,
            title: self.title.clone(),
            summary: self.summary.clone(),
            last_changed: self.last_changed,
            attachable: self.attachable,
            pinned: self.pinned,
        }
    }
}

/// The rows by their views, in order.
pub open spec fn row_views(rows: Seq<PopupRow>) -> Seq<PopupRowView> {
    rows.map_values(|r: PopupRow| r@)
}

/// The rows the popup shows, in order.
#[derive(Debug, Clone, PartialEq, Eq)]
pub struct PopupModel {
    pub rows: Vec<PopupRow>,
}

/// Whether pressing Escape left the popup open.
#[derive(Debug, Clone, Copy, PartialEq, Eq, Structural)]
pub enum PopupCloseResult {
    StayOpen,
    Close,
}

/// The popup's interaction state: mode, grouping, selection, filter, and
/// the text-entry sub-modes (reply, confirm, new session, rename). A new
/// session's directory is held as its path text.
#[derive(Debug, Clone, PartialEq, Eq)]
pub struct PopupState {
    pub mode: PopupMode,
    pub grouping: PopupGrouping,
    pub selected: Option<String>,
    pub scroll: usize,
    pub filter: String,
    pub filter_mode: bool,
    pub peek: bool,
    pub reply_mode: bool,
    pub reply_text: String,
    pub reply_target: Option<PopupTarget>,
    pub confirm_mode: bool,
    pub confirm_prompt: String,
    pub confirm_target: Option<PopupTarget>,
    pub new_mode: bool,
    pub new_text: String,
    pub new_path: Option<String>,
    pub rename_mode: bool,
    pub rename_text: String,
    pub rename_target: Option<PopupTarget>,
}

/// A popup state with its text as characters.
pub struct PopupStateView {
    pub mode: PopupMode,
    pub grouping: PopupGrouping,
    pub selected: Option<Seq<char>>,
    pub scroll: usize,
    pub filter: Seq<char>,
    pub filter_mode: bool,
    pub peek: bool,
    pub reply_mode: bool,
    pub reply_text: Seq<char>,
    pub reply_target: Option<PopupTargetView>,
    pub confirm_mode: bool,
    pub confirm_prompt: Seq<char>,
    pub confirm_target: Option<PopupTargetView>,
    pub new_mode: bool,
    pub new_text: Seq<char>,
    pub new_path: Option<Seq<char>>,
    pub rename_mode: bool,
    pub rename_text: Seq<char>,
    pub rename_target: Option<PopupTargetView>,
}

impl View for PopupState {
    type V = PopupStateView;

    open spec fn view(&self) -> PopupStateView {
        PopupStateView {
            mode: self.mode,
            grouping: self.grouping,
            selected: crate::protocol::opt_view(self.selected),
            scroll: self.scroll,
            filter: self.filter@,
            filter_mode: self.filter_mode,
            peek: self.peek,
            reply_mode: self.reply_mode,
            reply_text: self.reply_text@,
            reply_target: opt_popup_target(self.reply_target),
            confirm_mode: self.confirm_mode,
            confirm_prompt: self.confirm_prompt@,
            confirm_target: opt_popup_target(self.confirm_target),
            new_mode: self.new_mode,
            new_text: self.new_text@,
            new_path: crate::protocol::opt_view(self.new_path),
            rename_mode: self.rename_mode,
            rename_text: self.rename_text@,
            rename_target: opt_popup_target(self.rename_target),
        }
    }
}

/// A fresh popup state in `mode`: grouped by attention, nothing selected,
/// no filter, no sub-mode.
pub open spec fn new_state_spec(mode: PopupMode) -> PopupStateView {
    PopupStateView {
        mode,
        grouping: PopupGrouping::Attention,
        selected: None,
        scroll: 0,
        filter: Seq::empty(),
        filter_mode: false,
        peek: false,
        reply_mode: false,
        reply_text: Seq::empty(),
        reply_target: None,
        confirm_mode: false,
        confirm_prompt: Seq::empty(),
        confirm_target: None,
        new_mode: false,
        new_text: Seq::empty(),
        new_path: None,
        rename_mode: false,
        rename_text: Seq::empty(),
        rename_target: None,
    }
}

/// Escape in the popup: it leaves the innermost sub-mode first (reply,
/// confirm, new session, rename, peek, filter entry), then clears a filter,
/// and only then closes.
pub open spec fn close_spec(s: PopupStateView) -> (PopupStateView, PopupCloseResult) {
    if s.reply_mode {
        (PopupStateView { reply_mode: false, reply_text: Seq::empty(), reply_target: None, ..s }, PopupCloseResult::StayOpen)
    } else if s.confirm_mode {
        (PopupStateView { confirm_mode: false, confirm_prompt: Seq::empty(), confirm_target: None, ..s }, PopupCloseResult::StayOpen)
    } else if s.new_mode {
        (PopupStateView { new_mode: false, new_text: Seq::empty(), new_path: None, ..s }, PopupCloseResult::StayOpen)
    } else if s.rename_mode {
        (PopupStateView { rename_mode: false, rename_text: Seq::empty(), rename_target: None, ..s }, PopupCloseResult::StayOpen)
    } else if s.peek {
        (PopupStateView { peek: false, reply_target: None, ..s }, PopupCloseResult::StayOpen)
    } else if s.filter_mode {
        (PopupStateView { filter_mode: false, filter: Seq::empty(), ..s }, PopupCloseResult::StayOpen)
    } else if s.filter.len() > 0 {
        (PopupStateView { filter: Seq::empty(), ..s }, PopupCloseResult::StayOpen)
    } else {
        (s, PopupCloseResult::Close)
    }
}

/// The ids of the rows that can be selected (every row but the headers),
/// in order.
pub open spec fn selectable_ids(rows: Seq<PopupRowView>) -> Seq<Seq<char>>
    decreases rows.len(),
{
    if rows.len() == 0 {
        Seq::empty()
    } else if rows.last().kind == PopupRowKind::Header {
        selectable_ids(rows.drop_last())
    } else {
        selectable_ids(rows.drop_last()).push(rows.last().id)
    }
}

/// The position of the first `x` in `s`.
pub open spec fn first_index_of(s: Seq<Seq<char>>, x: Seq<char>) -> Option<int>
    decreases s.len(),
{
    if s.len() == 0 {
        None
    } else if s[0] == x {
        Some(0)
    } else {
        match first_index_of(s.drop_first(), x) {
            Some(k) => Some(k + 1),
            None => None,
        }
    }
}

/// The selection kept when it is still selectable, else the first
/// selectable row, else nothing.
pub open spec fn ensure_selection_spec(selected: Option<Seq<char>>, rows: Seq<PopupRowView>) -> Option<
    Seq<char>,
> {
    let ids = selectable_ids(rows);
    if selected is Some && ids.contains(selected->0) {
        selected
    } else if ids.len() > 0 {
        Some(ids[0])
    } else {
        None
    }
}

/// The selection after moving `delta` selectable rows from the current one
/// (the first when nothing is selected), stopping at either end.
pub open spec fn move_selection_spec(selected: Option<Seq<char>>, rows: Seq<PopupRowView>, delta: int) -> Option<
    Seq<char>,
> {
    let ids = selectable_ids(rows);
    if ids.len() == 0 {
        None
    } else {
        let current: int = match selected {
            Some(s) => match first_index_of(ids, s) {
                Some(k) => k,
                None => 0,
            },
            None => 0,
        };
        let next: int = if delta < 0 {
            if current + delta < 0 {
                0
            } else {
                current + delta
            }
        } else if current + delta > ids.len() - 1 {
            ids.len() - 1
        } else {
            current + delta
        };
        Some(ids[next])
    }
}

impl PopupState {
    /// A fresh popup state in `mode`.
    pub fn new(mode: PopupMode) -> (r: Self)
        ensures
            r@ == new_state_spec(mode),
    {
        PopupState {
            mode,
            grouping: PopupGrouping::Attention,
            selected: None,
            scroll: 0,
            filter: String::new(),
            filter_mode: false,
            peek: false,
            reply_mode: false,
            reply_text: String::new(),
            reply_target: None,
            confirm_mode: false,
            confirm_prompt: String::new(),
            confirm_target: None,
            new_mode: false,
            new_text: String::new(),
            new_path: None,
            rename_mode: false,
            rename_text: String::new(),
            rename_target: None,
        }
    }

    /// Switches between grouping by attention and by repository.
    pub fn toggle_grouping(&mut self)
        ensures
            final(self)@ == (PopupStateView {
                grouping: match old(self).grouping {
                    PopupGrouping::Attention => PopupGrouping::Repo,
                    PopupGrouping::Repo => PopupGrouping::Attention,
                },
                ..old(self)@
            }),
    {
        self.grouping = match self.grouping {
            PopupGrouping::Attention => PopupGrouping::Repo,
            PopupGrouping::Repo => PopupGrouping::Attention,
        };
    }

    /// Handles Escape: leaves the innermost sub-mode, or closes.
    pub fn close_or_clear(&mut self) -> (r: PopupCloseResult)
        ensures
            (final(self)@, r) == close_spec(old(self)@),
    {
        if self.reply_mode {
            self.reply_mode = false;
            self.reply_text = String::new();
            self.reply_target = None;
            PopupCloseResult::StayOpen
        } else if self.confirm_mode {
            self.confirm_mode = false;
            self.confirm_prompt = String::new();
            self.confirm_target = None;
            PopupCloseResult::StayOpen
        } else if self.new_mode {
            self.new_mode = false;
            self.new_text = String::new();
            self.new_path = None;
            PopupCloseResult::StayOpen
        } else if self.rename_mode {
            self.rename_mode = false;
            self.rename_text = String::new();
            self.rename_target = None;
            PopupCloseResult::StayOpen
        } else if self.peek {
            self.peek = false;
            self.reply_target = None;
            PopupCloseResult::StayOpen
        } else if self.filter_mode {
            self.filter_mode = false;
            self.filter = String::new();
            PopupCloseResult::StayOpen
        } else if self.filter.as_str().unicode_len() > 0 {
            self.filter = String::new();
            PopupCloseResult::StayOpen
        } else {
            PopupCloseResult::Close
        }
    }

    /// Keeps the selection when it is still selectable, else selects the
    /// first selectable row.
    pub fn ensure_selection(&mut self, model: &PopupModel)
        ensures
            final(self)@ == (PopupStateView {
                selected: ensure_selection_spec(old(self)@.selected, row_views(model.rows@)),
                ..old(self)@
            }),
    {
        let ids = model.selectable_row_ids();
        let keep = match &self.selected {
            Some(s) => contains_string(&ids, s),
            None => false,
        };
        if keep {
            return;
        }
        if ids.len() > 0 {
            self.selected = Some(ids[0].clone());
        } else {
            self.selected = None;
        }
    }

    /// Moves the selection by `delta` selectable rows.
    pub fn move_selection(&mut self, model: &PopupModel, delta: isize)
        ensures
            final(self)@ == (PopupStateView {
                selected: move_selection_spec(old(self)@.selected, row_views(model.rows@), delta as int),
                ..old(self)@
            }),
    {
        let ids = model.selectable_row_ids();
        if ids.len() == 0 {
            self.selected = None;
            return;
        }
        let current: usize = match &self.selected {
            Some(s) => match position_of(&ids, s) {
                Some(k) => k,
                None => 0,
            },
            None => 0,
        };
        let last = ids.len() - 1;
        let next: usize = if delta < 0 {
            let back: usize = if delta == isize::MIN {
                (isize::MAX as usize) + 1
            } else {
                (-delta) as usize
            };
            if back > current {
                0
            } else {
                current - back
            }
        } else {
            let fwd = delta as usize;
            if fwd > last - current {
                last
            } else {
                current + fwd
            }
        };
        proof {
            let ids_v = selectable_ids(row_views(model.rows@));
            assert(crate::protocol::views(ids@) == ids_v);
            let cur: int = match old(self)@.selected {
                Some(sv) => match first_index_of(ids_v, sv) {
                    Some(k) => k,
                    None => 0,
                },
                None => 0,
            };
            assert(cur == current as int);
            assert(move_selection_spec(old(self)@.selected, row_views(model.rows@), delta as int) == Some(ids_v[next as int]));
        }
        self.selected = Some(ids[next].clone());
    }

    /// The first row whose id is the selected one.
    pub fn selected_row<'a>(&self, model: &'a PopupModel) -> (r: Option<&'a PopupRow>)
        ensures
            match self.selected {
                None => r is None,
                Some(s) => match first_row_with_id(model.rows@, s@) {
                    Some(k) => r == Some(&model.rows@[k]),
                    None => r is None,
                },
            },
    {
        let selected = match &self.selected {
            Some(s) => s,
            None => {
                return None;
            },
        };
        let mut i: usize = 0;
        while i < model.rows.len()
            invariant
                i <= model.rows.len(),
                self.selected == Some(*selected),
                first_row_with_id(model.rows@, selected@) == first_row_from(model.rows@, selected@, i as int),
            decreases model.rows.len() - i,
        {
            if model.rows[i].id == *selected {
                return Some(&model.rows[i]);
            }
            i = i + 1;
        }
        None
    }
}

/// The index of the first row, from `i` on, whose id is `id`.
pub open spec fn first_row_from(rows: Seq<PopupRow>, id: Seq<char>, i: int) -> Option<int>
    decreases rows.len() - i,
{
    if i >= rows.len() || i < 0 {
        None
    } else if rows[i].id@ == id {
        Some(i)
    } else {
        first_row_from(rows, id, i + 1)
    }
}

/// The index of the first row whose id is `id`.
pub open spec fn first_row_with_id(rows: Seq<PopupRow>, id: Seq<char>) -> Option<int> {
    first_row_from(rows, id, 0)
}

fn contains_string(v: &Vec<String>, s: &String) -> (r: bool)
    ensures
        r == crate::protocol::views(v@).contains(s@),
{
    let mut i: usize = 0;
    while i < v.len()
        invariant
            i <= v.len(),
            forall|j: int| 0 <= j < i ==> v@[j]@ != s@,
        decreases v.len() - i,
    {
        if v[i] == *s {
            assert(crate::protocol::views(v@)[i as int] == s@);
            return true;
        }
        i = i + 1;
    }
    assert forall|j: int| 0 <= j < crate::protocol::views(v@).len() implies crate::protocol::views(v@)[j]
        != s@ by {}
    false
}

fn position_of(v: &Vec<String>, s: &String) -> (r: Option<usize>)
    ensures
        match first_index_of(crate::protocol::views(v@), s@) {
            Some(k) => r == Some(k as usize) && 0 <= k < v.len(),
            None => r is None,
        },
        r matches Some(k) ==> k < v.len(),
{
    let ghost vs = crate::protocol::views(v@);
    let mut i: usize = 0;
    assert(vs.skip(0) =~= vs);
    while i < v.len()
        invariant
            i <= v.len(),
            vs == crate::protocol::views(v@),
            first_index_of(vs, s@) == match first_index_of(vs.skip(i as int), s@) {
                Some(k) => Some(k + i),
                None => None::<int>,
            },
        decreases v.len() - i,
    {
        assert(vs.skip(i as int)[0] == v@[i as int]@);
        assert(vs.skip(i as int).drop_first() =~= vs.skip(i + 1));
        if v[i] == *s {
            return Some(i);
        }
        i = i + 1;
    }
    assert(vs.skip(i as int) =~= Seq::<Seq<char>>::empty());
    None
}

impl PopupModel {
    /// A model over the given rows.
    pub fn new(rows: Vec<PopupRow>) -> (r: Self)
        ensures
            r.rows@ == rows@,
    {
        PopupModel { rows }
    }

    /// The ids of the rows that can be selected, in order.
    pub fn selectable_row_ids(&self) -> (r: Vec<String>)
        ensures
            crate::protocol::views(r@) == selectable_ids(row_views(self.rows@)),
    {
        let ghost rv = row_views(self.rows@);
        let mut out: Vec<String> = Vec::new();
        let mut i: usize = 0;
        while i < self.rows.len()
            invariant
                i <= self.rows.len(),
                rv == row_views(self.rows@),
                crate::protocol::views(out@) == selectable_ids(rv.take(i as int)),
            decreases self.rows.len() - i,
        {
            assert(rv.take(i + 1).drop_last() =~= rv.take(i as int));
            assert(rv.take(i + 1).last() == self.rows@[i as int]@);
            if self.rows[i].kind != PopupRowKind::Header {
                let ghost before = out@;
                out.push(self.rows[i].id.clone());
                assert(crate::protocol::views(out@) =~= crate::protocol::views(before).push(self.rows@[i as int].id@));
            }
            i = i + 1;
        }
        assert(rv.take(i as int) =~= rv);
        out
    }
}

/// The mark shown for a row's state.
pub open spec fn state_marker_spec(state: PopupStateKind) -> Seq<char> {
    match state {
        PopupStateKind::NeedsInput => "!"@,
        PopupStateKind::Alert => "!"@,
        PopupStateKind::Ready => "+"@,
        PopupStateKind::Failed => "x"@,
        PopupStateKind::Working => "*"@,
        PopupStateKind::Completed => "+"@,
        PopupStateKind::Idle => "-"@,
        PopupStateKind::Detached => "."@,
        PopupStateKind::Previous => "."@,
        PopupStateKind::Stale => "x"@,
    }
}

/// The mark shown for a row's state.
pub fn state_marker(state: PopupStateKind) -> (r: &'static str)
    ensures
        r@ == state_marker_spec(state),
{
    match state {
        PopupStateKind::NeedsInput => "!",
        PopupStateKind::Alert => "!",
        PopupStateKind::Ready => "+",
        PopupStateKind::Failed => "x",
        PopupStateKind::Working => "*",
        PopupStateKind::Completed => "+",
        PopupStateKind::Idle => "-",
        PopupStateKind::Detached => ".",
        PopupStateKind::Previous => ".",
        PopupStateKind::Stale => "x",
    }
}


/// The `Debug` name of a state, as the filter searches it.
pub open spec fn state_name(state: PopupStateKind) -> Seq<char> {
    match state {
        PopupStateKind::NeedsInput => "NeedsInput"@,
        PopupStateKind::Alert => "Alert"@,
        PopupStateKind::Ready => "Ready"@,
        PopupStateKind::Failed => "Failed"@,
        PopupStateKind::Working => "Working"@,
        PopupStateKind::Completed => "Completed"@,
        PopupStateKind::Idle => "Idle"@,
        PopupStateKind::Detached => "Detached"@,
        PopupStateKind::Previous => "Previous"@,
        PopupStateKind::Stale => "Stale"@,
    }
}

fn state_name_of(state: PopupStateKind) -> (r: &'static str)
    ensures
        r@ == state_name(state),
{
    match state {
        PopupStateKind::NeedsInput => "NeedsInput",
        PopupStateKind::Alert => "Alert",
        PopupStateKind::Ready => "Ready",
        PopupStateKind::Failed => "Failed",
        PopupStateKind::Working => "Working",
        PopupStateKind::Completed => "Completed",
        PopupStateKind::Idle => "Idle",
        PopupStateKind::Detached => "Detached",
        PopupStateKind::Previous => "Previous",
        PopupStateKind::Stale => "Stale",
    }
}

/// A number in decimal, or nothing.
pub open spec fn opt_decimal(o: Option<usize>) -> Seq<char> {
    match o {
        Some(n) => crate::text::decimal(n as nat),
        None => Seq::empty(),
    }
}

/// The text the filter searches in a row: its repository, target
/// (session, window index, pane index), title, summary and state name,
/// separated by spaces, in ASCII lower case.
pub open spec fn row_haystack(row: PopupRowView) -> Seq<char> {
    let repo = match row.repo_path {
        Some(p) => p,
        None => Seq::empty(),
    };
    let target = match row.target {
        Some(t) => t.session + " "@ + opt_decimal(t.window_index) + " "@ + opt_decimal(t.pane_index),
        None => Seq::empty(),
    };
    crate::config::lower(
        repo + " "@ + target + " "@ + row.title + " "@ + row.summary + " "@ + state_name(row.state),
    )
}

fn opt_decimal_string(o: Option<usize>) -> (r: String)
    ensures
        r@ == opt_decimal(o),
{
    match o {
        Some(n) => crate::text::usize_string(n),
        None => String::new(),
    }
}

fn row_matches_filter(row: &PopupRow, needle: &str) -> (r: bool)
    ensures
        r == contains_seq(row_haystack(row@), needle@),
{
    let repo = match &row.repo_path {
        Some(p) => p.clone(),
        None => String::new(),
    };
    let target = match &row.target {
        Some(t) => {
            let a = concat_str(t.session.as_str(), " ");
            let b = concat_str(a.as_str(), opt_decimal_string(t.window_index).as_str());
            let c = concat_str(b.as_str(), " ");
            concat_str(c.as_str(), opt_decimal_string(t.pane_index).as_str())
        },
        None => String::new(),
    };
    let h = concat_str(repo.as_str(), " ");
    let h = concat_str(h.as_str(), target.as_str());
    let h = concat_str(h.as_str(), " ");
    let h = concat_str(h.as_str(), row.title.as_str());
    let h = concat_str(h.as_str(), " ");
    let h = concat_str(h.as_str(), row.summary.as_str());
    let h = concat_str(h.as_str(), " ");
    let h = concat_str(h.as_str(), state_name_of(row.state));
    let chars = chars_of(h.as_str());
    let lowered = crate::config::lower_chars(&chars);
    crate::text::contains_str(&lowered, needle)
}

/// The rows that match a filter from row `k` on, each kept header put
/// just before the first matching item under it; `pending` is the header
/// not yet placed.
pub open spec fn filter_from(rows: Seq<PopupRowView>, needle: Seq<char>, k: int, pending: Option<PopupRowView>) -> Seq<
    PopupRowView,
>
    decreases rows.len() - k,
{
    if k >= rows.len() || k < 0 {
        Seq::empty()
    } else if rows[k].kind == PopupRowKind::Header {
        filter_from(rows, needle, k + 1, Some(rows[k]))
    } else if contains_seq(row_haystack(rows[k]), needle) {
        (match pending {
            Some(h) => seq![h],
            None => Seq::empty(),
        }) + seq![rows[k]] + filter_from(rows, needle, k + 1, None)
    } else {
        filter_from(rows, needle, k + 1, pending)
    }
}

/// The rows a filter keeps: all of them for a blank filter; otherwise the
/// items whose text contains the trimmed, lower-cased filter, with the
/// headers of the groups that keep an item.
pub open spec fn filter_rows_spec(rows: Seq<PopupRowView>, filter: Seq<char>) -> Seq<PopupRowView> {
    let needle = crate::config::lower(crate::text::trim(filter));
    if needle.len() == 0 {
        rows
    } else {
        filter_from(rows, needle, 0, None)
    }
}

fn copy_rows(rows: &[PopupRow]) -> (r: Vec<PopupRow>)
    ensures
        row_views(r@) == row_views(rows@),
{
    let mut out: Vec<PopupRow> = Vec::new();
    let mut i: usize = 0;
    while i < rows.len()
        invariant
            i <= rows.len(),
            row_views(out@) =~= row_views(rows@).take(i as int),
        decreases rows.len() - i,
    {
        let ghost before = out@;
        out.push(rows[i].duplicate());
        assert(row_views(out@) =~= row_views(before).push(rows@[i as int]@));
        i = i + 1;
    }
    out
}

/// The rows that match a filter, with the headers of the groups that keep
/// an item.
pub fn filter_rows(rows: &[PopupRow], filter: &str) -> (r: Vec<PopupRow>)
    ensures
        row_views(r@) == filter_rows_spec(row_views(rows@), filter@),
{
    let fchars = chars_of(filter);
    let trimmed = crate::text::trim_chars(&fchars);
    let lowered = crate::config::lower_chars(&trimmed);
    if lowered.len() == 0 {
        return copy_rows(rows);
    }
    let needle = string_from_chars(&lowered);
    let ghost rv = row_views(rows@);
    let ghost nv = needle@;
    let mut result: Vec<PopupRow> = Vec::new();
    let mut pending: Option<usize> = None;
    let mut i: usize = 0;
    while i < rows.len()
        invariant
            i <= rows.len(),
            rv == row_views(rows@),
            nv == needle@,
            nv == crate::config::lower(crate::text::trim(filter@)),
            pending matches Some(h) ==> h < rows.len(),
            filter_from(rv, nv, 0, None) == row_views(result@) + filter_from(
                rv,
                nv,
                i as int,
                match pending {
                    Some(h) => Some(rv[h as int]),
                    None => None,
                },
            ),
        decreases rows.len() - i,
    {
        if rows[i].kind == PopupRowKind::Header {
            pending = Some(i);
        } else if row_matches_filter(&rows[i], needle.as_str()) {
            let ghost before = result@;
            let ghost pv = match pending {
                Some(h) => Some(rv[h as int]),
                None => None::<PopupRowView>,
            };
            match pending {
                Some(h) => {
                    result.push(rows[h].duplicate());
                },
                None => {},
            }
            result.push(rows[i].duplicate());
            proof {
                let head = match pv {
                    Some(hv) => seq![hv],
                    None => Seq::empty(),
                };
                assert(row_views(result@) =~= row_views(before) + head + seq![rv[i as int]]);
                let rest = filter_from(rv, nv, i + 1, None);
                assert(row_views(before) + (head + seq![rv[i as int]] + rest) =~= row_views(result@) + rest);
            }
            pending = None;
        }
        i = i + 1;
    }
    assert(row_views(result@) + Seq::empty() =~= row_views(result@));
    result
}

/// A group header row.
pub open spec fn header_row_spec(id: Seq<char>, title: Seq<char>, state: PopupStateKind, repo_path: Option<Seq<char>>) -> PopupRowView {
    PopupRowView {
        id,
        kind: PopupRowKind::Header,
        repo_path,
        target: None,
        state,
        source: PopupRowSource::Mux,
        title,
        summary: Seq::empty(),
        last_changed: None,
        attachable: false,
        pinned: false,
    }
}

fn header_row(id: String, title: String, state: PopupStateKind, repo_path: Option<String>) -> (r: PopupRow)
    ensures
        r@ == header_row_spec(id@, title@, state, crate::protocol::opt_view(repo_path)),
{
    PopupRow {
        id,
        kind: PopupRowKind::Header,
        repo_path,
        target: None,
        state,
        source: PopupRowSource::Mux,
        title,
        summary: String::new(),
        last_changed: None,
        attachable: false,
        pinned: false,
    }
}

/// The states in attention order, with their group titles.
pub open spec fn attention_group(j: int) -> (PopupStateKind, Seq<char>) {
    if j == 0 {
        (PopupStateKind::NeedsInput, "Needs input"@)
    } else if j == 1 {
        (PopupStateKind::Alert, "Alerts"@)
    } else if j == 2 {
        (PopupStateKind::Ready, "Ready"@)
    } else if j == 3 {
        (PopupStateKind::Failed, "Failed"@)
    } else if j == 4 {
        (PopupStateKind::Working, "Working"@)
    } else if j == 5 {
        (PopupStateKind::Completed, "Completed"@)
    } else if j == 6 {
        (PopupStateKind::Idle, "Idle"@)
    } else if j == 7 {
        (PopupStateKind::Detached, "Detached"@)
    } else if j == 8 {
        (PopupStateKind::Previous, "Previous"@)
    } else {
        (PopupStateKind::Stale, "Stale"@)
    }
}

fn attention_group_of(j: usize) -> (r: (PopupStateKind, &'static str))
    requires
        j < 10,
    ensures
        r.0 == attention_group(j as int).0,
        r.1@ == attention_group(j as int).1,
{
    if j == 0 {
        (PopupStateKind::NeedsInput, "Needs input")
    } else if j == 1 {
        (PopupStateKind::Alert, "Alerts")
    } else if j == 2 {
        (PopupStateKind::Ready, "Ready")
    } else if j == 3 {
        (PopupStateKind::Failed, "Failed")
    } else if j == 4 {
        (PopupStateKind::Working, "Working")
    } else if j == 5 {
        (PopupStateKind::Completed, "Completed")
    } else if j == 6 {
        (PopupStateKind::Idle, "Idle")
    } else if j == 7 {
        (PopupStateKind::Detached, "Detached")
    } else if j == 8 {
        (PopupStateKind::Previous, "Previous")
    } else {
        (PopupStateKind::Stale, "Stale")
    }
}

/// The items (not headers) in a given state, in order.
pub open spec fn items_in_state(rows: Seq<PopupRowView>, state: PopupStateKind) -> Seq<PopupRowView>
    decreases rows.len(),
{
    if rows.len() == 0 {
        Seq::empty()
    } else if rows.last().kind != PopupRowKind::Header && rows.last().state == state {
        items_in_state(rows.drop_last(), state).push(rows.last())
    } else {
        items_in_state(rows.drop_last(), state)
    }
}

/// The attention groups from group `j` on: each state that has items gets
/// a header and its items.
pub open spec fn attention_from(rows: Seq<PopupRowView>, j: int) -> Seq<PopupRowView>
    decreases 10 - j,
{
    if j >= 10 {
        Seq::empty()
    } else {
        let (state, title) = attention_group(j);
        let items = items_in_state(rows, state);
        (if items.len() == 0 {
            Seq::empty()
        } else {
            seq![header_row_spec("group:attention:"@ + state_name(state), title, state, None)] + items
        }) + attention_from(rows, j + 1)
    }
}

/// The items (not headers) with a given repository, in order.
pub open spec fn items_in_repo(rows: Seq<PopupRowView>, repo: Option<Seq<char>>) -> Seq<PopupRowView>
    decreases rows.len(),
{
    if rows.len() == 0 {
        Seq::empty()
    } else if rows.last().kind != PopupRowKind::Header && rows.last().repo_path == repo {
        items_in_repo(rows.drop_last(), repo).push(rows.last())
    } else {
        items_in_repo(rows.drop_last(), repo)
    }
}

/// The repositories of the items, each once, in order of first appearance.
pub open spec fn repo_keys(rows: Seq<PopupRowView>) -> Seq<Option<Seq<char>>>
    decreases rows.len(),
{
    if rows.len() == 0 {
        Seq::empty()
    } else {
        let k = repo_keys(rows.drop_last());
        if rows.last().kind == PopupRowKind::Header || k.contains(rows.last().repo_path) {
            k
        } else {
            k.push(rows.last().repo_path)
        }
    }
}

/// The title of a repository group.
pub open spec fn repo_title(repo: Option<Seq<char>>) -> Seq<char> {
    match repo {
        Some(p) => p,
        None => "Unregistered"@,
    }
}

/// The repository groups for the keys from `j` on.
pub open spec fn repo_groups_from(rows: Seq<PopupRowView>, keys: Seq<Option<Seq<char>>>, j: int) -> Seq<PopupRowView>
    decreases keys.len() - j,
{
    if j >= keys.len() || j < 0 {
        Seq::empty()
    } else {
        let key = keys[j];
        seq![header_row_spec("group:repo:"@ + repo_title(key), repo_title(key), PopupStateKind::Idle, key)]
            + items_in_repo(rows, key) + repo_groups_from(rows, keys, j + 1)
    }
}

/// The rows regrouped: by attention, the states in order of urgency; by
/// repository, in order of first appearance. Old headers are dropped.
pub open spec fn group_rows_spec(rows: Seq<PopupRowView>, grouping: PopupGrouping) -> Seq<PopupRowView> {
    match grouping {
        PopupGrouping::Attention => attention_from(rows, 0),
        PopupGrouping::Repo => repo_groups_from(rows, repo_keys(rows), 0),
    }
}

fn collect_in_state(rows: &Vec<PopupRow>, state: PopupStateKind) -> (r: Vec<PopupRow>)
    ensures
        row_views(r@) == items_in_state(row_views(rows@), state),
{
    let ghost rv = row_views(rows@);
    let mut out: Vec<PopupRow> = Vec::new();
    let mut i: usize = 0;
    while i < rows.len()
        invariant
            i <= rows.len(),
            rv == row_views(rows@),
            row_views(out@) == items_in_state(rv.take(i as int), state),
        decreases rows.len() - i,
    {
        assert(rv.take(i + 1).drop_last() =~= rv.take(i as int));
        assert(rv.take(i + 1).last() == rows@[i as int]@);
        if rows[i].kind != PopupRowKind::Header && rows[i].state == state {
            let ghost before = out@;
            out.push(rows[i].duplicate());
            assert(row_views(out@) =~= row_views(before).push(rows@[i as int]@));
        }
        i = i + 1;
    }
    assert(rv.take(i as int) =~= rv);
    out
}

fn opt_str_eq(a: &Option<String>, b: &Option<String>) -> (r: bool)
    ensures
        r == (crate::protocol::opt_view(*a) == crate::protocol::opt_view(*b)),
{
    match (a, b) {
        (Some(x), Some(y)) => *x == *y,
        (None, None) => true,
        _ => false,
    }
}

fn collect_in_repo(rows: &Vec<PopupRow>, repo: &Option<String>) -> (r: Vec<PopupRow>)
    ensures
        row_views(r@) == items_in_repo(row_views(rows@), crate::protocol::opt_view(*repo)),
{
    let ghost rv = row_views(rows@);
    let mut out: Vec<PopupRow> = Vec::new();
    let mut i: usize = 0;
    while i < rows.len()
        invariant
            i <= rows.len(),
            rv == row_views(rows@),
            row_views(out@) == items_in_repo(rv.take(i as int), crate::protocol::opt_view(*repo)),
        decreases rows.len() - i,
    {
        assert(rv.take(i + 1).drop_last() =~= rv.take(i as int));
        assert(rv.take(i + 1).last() == rows@[i as int]@);
        if rows[i].kind != PopupRowKind::Header && opt_str_eq(&rows[i].repo_path, repo) {
            let ghost before = out@;
            out.push(rows[i].duplicate());
            assert(row_views(out@) =~= row_views(before).push(rows@[i as int]@));
        }
        i = i + 1;
    }
    assert(rv.take(i as int) =~= rv);
    out
}

fn append_rows(dst: &mut Vec<PopupRow>, src: Vec<PopupRow>)
    ensures
        row_views(final(dst)@) == row_views(old(dst)@) + row_views(src@),
{
    let ghost start = row_views(dst@);
    let mut i: usize = 0;
    while i < src.len()
        invariant
            i <= src.len(),
            row_views(dst@) == start + row_views(src@).take(i as int),
        decreases src.len() - i,
    {
        let ghost before = dst@;
        dst.push(src[i].duplicate());
        assert(row_views(dst@) =~= row_views(before).push(src@[i as int]@));
        assert(row_views(src@).take(i + 1) =~= row_views(src@).take(i as int).push(src@[i as int]@));
        i = i + 1;
    }
    assert(row_views(src@).take(i as int) =~= row_views(src@));
}

/// Regroups rows by attention or by repository.
pub fn group_rows(rows: Vec<PopupRow>, grouping: PopupGrouping) -> (r: PopupModel)
    ensures
        row_views(r.rows@) == group_rows_spec(row_views(rows@), grouping),
{
    let ghost rv = row_views(rows@);
    let mut grouped: Vec<PopupRow> = Vec::new();
    match grouping {
        PopupGrouping::Attention => {
            let mut j: usize = 0;
            while j < 10
                invariant
                    j <= 10,
                    rv == row_views(rows@),
                    attention_from(rv, 0) == row_views(grouped@) + attention_from(rv, j as int),
                decreases 10 - j,
            {
                let (state, title) = attention_group_of(j);
                let items = collect_in_state(&rows, state);
                let ghost before = row_views(grouped@);
                if items.len() > 0 {
                    let id = concat_str("group:attention:", state_name_of(state));
                    grouped.push(header_row(id, String::from_str(title), state, None));
                    let ghost mid = row_views(grouped@);
                    assert(mid =~= before.push(header_row_spec("group:attention:"@ + state_name(state), title@, state, None)));
                    append_rows(&mut grouped, items);
                }
                proof {
                    let section = if row_views(items@).len() == 0 {
                        Seq::<PopupRowView>::empty()
                    } else {
                        seq![header_row_spec("group:attention:"@ + state_name(state), title@, state, None)]
                            + row_views(items@)
                    };
                    assert(row_views(grouped@) =~= before + section);
                    assert(before + (section + attention_from(rv, j + 1)) =~= row_views(grouped@)
                        + attention_from(rv, j + 1));
                }
                j = j + 1;
            }
            assert(row_views(grouped@) + Seq::empty() =~= row_views(grouped@));
        },
        PopupGrouping::Repo => {
            let mut keys: Vec<Option<String>> = Vec::new();
            let mut i: usize = 0;
            while i < rows.len()
                invariant
                    i <= rows.len(),
                    rv == row_views(rows@),
                    keys@.map_values(|k: Option<String>| crate::protocol::opt_view(k)) == repo_keys(rv.take(i as int)),
                decreases rows.len() - i,
            {
                assert(rv.take(i + 1).drop_last() =~= rv.take(i as int));
                assert(rv.take(i + 1).last() == rows@[i as int]@);
                if rows[i].kind != PopupRowKind::Header {
                    let ghost kv = keys@.map_values(|k: Option<String>| crate::protocol::opt_view(k));
                    let mut found = false;
                    let mut g: usize = 0;
                    while g < keys.len()
                        invariant
                            g <= keys.len(),
                            kv == keys@.map_values(|k: Option<String>| crate::protocol::opt_view(k)),
                            i < rows.len(),
                            found == exists|h: int| 0 <= h < g && kv[h] == crate::protocol::opt_view(rows@[i as int].repo_path),
                        decreases keys.len() - g,
                    {
                        assert(kv[g as int] == crate::protocol::opt_view(keys@[g as int]));
                        if opt_str_eq(&keys[g], &rows[i].repo_path) {
                            found = true;
                        }
                        proof {
                            if !found {
                                assert forall|h: int| 0 <= h < g + 1 implies kv[h] != crate::protocol::opt_view(rows@[i as int].repo_path) by {
                                    if h < g {
                                        assert(!(0 <= h < g && kv[h] == crate::protocol::opt_view(rows@[i as int].repo_path)));
                                    }
                                }
                            }
                        }
                        g = g + 1;
                    }
                    proof {
                        if found {
                            let h = choose|h: int| 0 <= h < g && kv[h] == crate::protocol::opt_view(rows@[i as int].repo_path);
                            assert(kv.contains(crate::protocol::opt_view(rows@[i as int].repo_path)));
                        } else {
                            assert(!kv.contains(crate::protocol::opt_view(rows@[i as int].repo_path)));
                        }
                    }
                    if !found {
                        let ghost before = keys@;
                        keys.push(clone_opt_string(&rows[i].repo_path));
                        assert(keys@.map_values(|k: Option<String>| crate::protocol::opt_view(k)) =~= kv.push(
                            crate::protocol::opt_view(rows@[i as int].repo_path),
                        ));
                    }
                }
                i = i + 1;
            }
            assert(rv.take(i as int) =~= rv);
            let ghost kv = keys@.map_values(|k: Option<String>| crate::protocol::opt_view(k));
            let mut g: usize = 0;
            while g < keys.len()
                invariant
                    g <= keys.len(),
                    rv == row_views(rows@),
                    kv == keys@.map_values(|k: Option<String>| crate::protocol::opt_view(k)),
                    kv == repo_keys(rv),
                    repo_groups_from(rv, kv, 0) == row_views(grouped@) + repo_groups_from(rv, kv, g as int),
                decreases keys.len() - g,
            {
                let title = match &keys[g] {
                    Some(p) => p.clone(),
                    None => String::from_str("Unregistered"),
                };
                assert(title@ == repo_title(kv[g as int]));
                let id = concat_str("group:repo:", title.as_str());
                let items = collect_in_repo(&rows, &keys[g]);
                let ghost before = row_views(grouped@);
                grouped.push(header_row(id, title, PopupStateKind::Idle, clone_opt_string(&keys[g])));
                append_rows(&mut grouped, items);
                proof {
                    let key = kv[g as int];
                    let section = seq![header_row_spec("group:repo:"@ + repo_title(key), repo_title(key), PopupStateKind::Idle, key)]
                        + items_in_repo(rv, key);
                    assert(row_views(grouped@) =~= before + section);
                    assert(before + (section + repo_groups_from(rv, kv, g + 1)) =~= row_views(grouped@)
                        + repo_groups_from(rv, kv, g + 1));
                }
                g = g + 1;
            }
            assert(row_views(grouped@) + Seq::empty() =~= row_views(grouped@));
        },
    }
    PopupModel::new(grouped)
}


/// A rendered popup: its lines, the line of the selected item, how many
/// trailing lines (peek, prompts, footer) stay on screen while the list
/// scrolls, and the selection's position among the selectable rows
/// (counted from 1) with their number.
#[derive(Debug, Clone, PartialEq, Eq)]
pub struct PopupView {
    pub lines: Vec<String>,
    pub focus_line: Option<usize>,
    pub pinned_tail: usize,
    pub count: Option<(usize, usize)>,
}

/// The two-cell flag column of an item: `p` when pinned, `d` when
/// disabled, padded with spaces.
pub open spec fn flags_spec(row: PopupRowView) -> Seq<char> {
    let f = (if row.pinned {
        "p"@
    } else {
        Seq::empty()
    }) + (if row.kind == PopupRowKind::DisabledItem {
        "d"@
    } else {
        Seq::empty()
    });
    f + spaces((2 - f.len()) as nat)
}

/// The line of an item: the selection mark, the state mark, the flags, the
/// padded title and the summary, without trailing whitespace.
pub open spec fn item_line_spec(row: PopupRowView, selected: bool) -> Seq<char> {
    crate::text::trim_end(
        (if selected {
            ">"@
        } else {
            " "@
        }) + " "@ + state_marker_spec(row.state) + " "@ + flags_spec(row) + " "@ + pad_title_spec(
            row.title,
            TITLE_WIDTH as nat,
        ) + " "@ + row.summary,
    )
}

/// The list part of the popup for the given rows, and the line of the
/// (last) selected item: a header with a non-blank title becomes a ruled
/// line, every item its line.
pub open spec fn list_spec(selected: Option<Seq<char>>, rows: Seq<PopupRowView>) -> (Seq<Seq<char>>, Option<usize>)
    decreases rows.len(),
{
    if rows.len() == 0 {
        (Seq::empty(), None)
    } else {
        let (lines, focus) = list_spec(selected, rows.drop_last());
        let row = rows.last();
        if row.kind == PopupRowKind::Header {
            let t = crate::text::trim_end(row.title);
            if t.len() == 0 {
                (lines, focus)
            } else {
                (lines.push("── "@ + t + " ──"@), focus)
            }
        } else {
            let is_selected = selected == Some(row.id);
            (
                lines.push(item_line_spec(row, is_selected)),
                if is_selected {
                    Some(lines.len() as usize)
                } else {
                    focus
                },
            )
        }
    }
}

/// The non-blank lines of a peek, without trailing whitespace.
pub open spec fn peek_lines(lines: Seq<Seq<char>>) -> Seq<Seq<char>>
    decreases lines.len(),
{
    if lines.len() == 0 {
        Seq::empty()
    } else {
        let rest = peek_lines(lines.drop_last());
        let t = crate::text::trim_end(lines.last());
        if t.len() == 0 {
            rest
        } else {
            rest.push(t)
        }
    }
}

/// The footer hints of a mode.
pub open spec fn footer_spec(mode: PopupMode) -> Seq<Seq<char>> {
    match mode {
        PopupMode::Attention => seq!["Space: peek   r: reply   Tab: group   /: filter   Esc: close"@],
        PopupMode::Workspace => seq![
            "Enter: focus/attach   o: open/reopen   n: new   R: rename   x: kill   p: pin"@,
            "J/K: reorder   Space: peek   r: reply   Tab: group   /: filter   Esc: close"@,
        ],
        PopupMode::Tree => seq![
            "Enter: focus/attach   R: rename window   x: kill   Space: peek"@,
            "r: reply   Tab: group   /: filter   Esc: close"@,
        ],
    }
}

/// One line when `b` holds, else none.
pub open spec fn line_if(b: bool, line: Seq<char>) -> Seq<Seq<char>> {
    if b {
        seq![line]
    } else {
        Seq::empty()
    }
}

/// The prompt lines of the active text-entry sub-modes, each with a `|`
/// caret, and the filter line.
pub open spec fn prompts_spec(state: PopupStateView) -> Seq<Seq<char>> {
    line_if(state.reply_mode, "Reply: "@ + state.reply_text + "|"@) + line_if(
        state.confirm_mode,
        state.confirm_prompt + " (y/N)"@,
    ) + line_if(state.new_mode, "New session: "@ + state.new_text + "|"@) + line_if(
        state.rename_mode,
        "Rename: "@ + state.rename_text + "|"@,
    ) + (if state.filter_mode {
        seq!["Filter: "@ + state.filter + "|"@]
    } else if state.filter.len() > 0 {
        seq!["Filter: "@ + state.filter + "   (Esc to clear)"@]
    } else {
        Seq::empty()
    })
}

/// The lines kept below the list: the peek, the prompts, and the footer.
pub open spec fn chrome_spec(state: PopupStateView, peek: Option<Seq<char>>) -> Seq<Seq<char>> {
    (match peek {
        Some(p) => seq!["Peek"@] + peek_lines(crate::text::text_lines(p)),
        None => Seq::empty(),
    }) + prompts_spec(state) + footer_spec(state.mode)
}

/// The selection's position among the selectable rows (1 when it is not
/// one of them) and their number; nothing when no row is selectable.
pub open spec fn count_spec(selected: Option<Seq<char>>, rows: Seq<PopupRowView>) -> Option<(usize, usize)> {
    let ids = selectable_ids(rows);
    if ids.len() == 0 {
        None
    } else {
        let position: int = match selected {
            Some(s) => match first_index_of(ids, s) {
                Some(k) => k + 1,
                None => 1,
            },
            None => 1,
        };
        Some((position as usize, ids.len() as usize))
    }
}

/// The rendered popup as lines, focus line, pinned tail and count.
pub open spec fn render_view_spec(state: PopupStateView, rows: Seq<PopupRowView>, peek: Option<Seq<char>>) -> (
    Seq<Seq<char>>,
    Option<usize>,
    usize,
    Option<(usize, usize)>,
) {
    let (list, focus) = list_spec(state.selected, rows);
    let chrome = chrome_spec(state, peek);
    (list + chrome, focus, chrome.len() as usize, count_spec(state.selected, rows))
}

fn push_line(lines: &mut Vec<String>, line: String)
    ensures
        crate::protocol::views(final(lines)@) == crate::protocol::views(old(lines)@).push(line@),
{
    lines.push(line);
    assert(crate::protocol::views(lines@) =~= crate::protocol::views(old(lines)@).push(line@));
}

fn trim_end_string(s: &str) -> (r: String)
    ensures
        r@ == crate::text::trim_end(s@),
{
    let v = chars_of(s);
    let e = crate::text::trim_end_index(&v, 0, v.len());
    assert(v@.subrange(0, v.len() as int) =~= v@);
    crate::text::string_from_range(&v, 0, e)
}

fn item_line(row: &PopupRow, selected: bool) -> (r: String)
    ensures
        r@ == item_line_spec(row@, selected),
{
    let marker = if selected {
        ">"
    } else {
        " "
    };
    let mut flags = String::new();
    if row.pinned {
        push_char(&mut flags, 'p');
    }
    if row.kind == PopupRowKind::DisabledItem {
        push_char(&mut flags, 'd');
    }
    let ghost f = flags@;
    proof {
        let expect = (if row.pinned {
            "p"@
        } else {
            Seq::<char>::empty()
        }) + (if row.kind == PopupRowKind::DisabledItem {
            "d"@
        } else {
            Seq::<char>::empty()
        });
        reveal_strlit("p");
        reveal_strlit("d");
        assert(f =~= expect);
    }
    while flags.as_str().unicode_len() < 2
        invariant
            f.len() <= flags@.len() <= 2,
            flags@ == f + spaces((flags@.len() - f.len()) as nat),
        decreases 2 - flags@.len(),
    {
        push_char(&mut flags, ' ');
        assert(flags@ =~= f + spaces((flags@.len() - f.len()) as nat));
    }
    let line = concat_str(marker, " ");
    let line = concat_str(line.as_str(), state_marker(row.state));
    let line = concat_str(line.as_str(), " ");
    let line = concat_str(line.as_str(), flags.as_str());
    let line = concat_str(line.as_str(), " ");
    let line = concat_str(line.as_str(), pad_title(row.title.as_str(), TITLE_WIDTH).as_str());
    let line = concat_str(line.as_str(), " ");
    let line = concat_str(line.as_str(), row.summary.as_str());
    trim_end_string(line.as_str())
}

fn selected_is(selected: &Option<String>, id: &String) -> (r: bool)
    ensures
        r == (crate::protocol::opt_view(*selected) == Some(id@)),
{
    match selected {
        Some(s) => *s == *id,
        None => false,
    }
}

fn render_count(state: &PopupState, model: &PopupModel) -> (r: Option<(usize, usize)>)
    ensures
        r == count_spec(state@.selected, row_views(model.rows@)),
{
    let ids = model.selectable_row_ids();
    if ids.len() == 0 {
        None
    } else {
        let position = match &state.selected {
            Some(s) => match position_of(&ids, s) {
                Some(k) => k + 1,
                None => 1,
            },
            None => 1,
        };
        Some((position, ids.len()))
    }
}

fn render_list(state: &PopupState, model: &PopupModel) -> (r: (Vec<String>, Option<usize>))
    ensures
        (crate::protocol::views(r.0@), r.1) == list_spec(state@.selected, row_views(model.rows@)),
{
    let ghost rv = row_views(model.rows@);
    let mut list: Vec<String> = Vec::new();
    let mut focus_line: Option<usize> = None;
    let mut i: usize = 0;
    while i < model.rows.len()
        invariant
            i <= model.rows.len(),
            rv == row_views(model.rows@),
            (crate::protocol::views(list@), focus_line) == list_spec(state@.selected, rv.take(i as int)),
        decreases model.rows.len() - i,
    {
        assert(rv.take(i + 1).drop_last() =~= rv.take(i as int));
        assert(rv.take(i + 1).last() == model.rows@[i as int]@);
        let row = &model.rows[i];
        if row.kind == PopupRowKind::Header {
            let title = trim_end_string(row.title.as_str());
            if title.as_str().unicode_len() > 0 {
                let a = concat_str("── ", title.as_str());
                push_line(&mut list, concat_str(a.as_str(), " ──"));
            }
        } else {
            let selected = selected_is(&state.selected, &row.id);
            if selected {
                focus_line = Some(list.len());
            }
            push_line(&mut list, item_line(row, selected));
        }
        i = i + 1;
    }
    assert(rv.take(i as int) =~= rv);
    (list, focus_line)
}

fn render_peek_lines(chrome: &mut Vec<String>, p: &str)
    ensures
        crate::protocol::views(final(chrome)@) == crate::protocol::views(old(chrome)@) + peek_lines(
            crate::text::text_lines(p@),
        ),
{
    let ghost start = crate::protocol::views(chrome@);
    let pc = chars_of(p);
    let ls = crate::text::lines_of(&pc);
    let ghost lv = crate::text::text_lines(p@);
    let mut k: usize = 0;
    assert(start + peek_lines(lv.take(0)) =~= start);
    while k < ls.len()
        invariant
            k <= ls.len() == lv.len(),
            lv == crate::text::text_lines(p@),
            forall|j: int| 0 <= j < ls@.len() ==> (#[trigger] ls@[j])@ == lv[j],
            crate::protocol::views(chrome@) == start + peek_lines(lv.take(k as int)),
        decreases ls.len() - k,
    {
        assert(lv.take(k + 1).drop_last() =~= lv.take(k as int));
        assert(lv.take(k + 1).last() == ls@[k as int]@);
        let t = crate::text::trim_end_index(&ls[k], 0, ls[k].len());
        assert(ls@[k as int]@.subrange(0, ls@[k as int]@.len() as int) =~= ls@[k as int]@);
        if t > 0 {
            let ghost before = crate::protocol::views(chrome@);
            push_line(chrome, crate::text::string_from_range(&ls[k], 0, t));
            assert(before.push(ls@[k as int]@.subrange(0, t as int)) =~= start + peek_lines(lv.take(k + 1)));
        }
        k = k + 1;
    }
    assert(lv.take(k as int) =~= lv);
}

#[verifier::rlimit(40)]
fn push_prompts(chrome: &mut Vec<String>, state: &PopupState)
    ensures
        crate::protocol::views(final(chrome)@) == crate::protocol::views(old(chrome)@) + prompts_spec(state@),
{
    let ghost c0 = crate::protocol::views(chrome@);
    if state.reply_mode {
        let a = concat_str("Reply: ", state.reply_text.as_str());
        push_line(chrome, concat_str(a.as_str(), "|"));
    }
    let ghost c1 = crate::protocol::views(chrome@);
    assert(c1 =~= c0 + line_if(state.reply_mode, "Reply: "@ + state.reply_text@ + "|"@));
    if state.confirm_mode {
        push_line(chrome, concat_str(state.confirm_prompt.as_str(), " (y/N)"));
    }
    let ghost c2 = crate::protocol::views(chrome@);
    assert(c2 =~= c1 + line_if(state.confirm_mode, state.confirm_prompt@ + " (y/N)"@));
    if state.new_mode {
        let a = concat_str("New session: ", state.new_text.as_str());
        push_line(chrome, concat_str(a.as_str(), "|"));
    }
    let ghost c3 = crate::protocol::views(chrome@);
    assert(c3 =~= c2 + line_if(state.new_mode, "New session: "@ + state.new_text@ + "|"@));
    if state.rename_mode {
        let a = concat_str("Rename: ", state.rename_text.as_str());
        push_line(chrome, concat_str(a.as_str(), "|"));
    }
    let ghost c4 = crate::protocol::views(chrome@);
    assert(c4 =~= c3 + line_if(state.rename_mode, "Rename: "@ + state.rename_text@ + "|"@));
    if state.filter_mode {
        let a = concat_str("Filter: ", state.filter.as_str());
        push_line(chrome, concat_str(a.as_str(), "|"));
    } else if state.filter.as_str().unicode_len() > 0 {
        let a = concat_str("Filter: ", state.filter.as_str());
        push_line(chrome, concat_str(a.as_str(), "   (Esc to clear)"));
    }
    assert(crate::protocol::views(chrome@) =~= c0 + prompts_spec(state@));
}

fn push_footer(chrome: &mut Vec<String>, mode: PopupMode)
    ensures
        crate::protocol::views(final(chrome)@) == crate::protocol::views(old(chrome)@) + footer_spec(mode),
{
    let ghost c0 = crate::protocol::views(chrome@);
    match mode {
        PopupMode::Attention => {
            push_line(chrome, String::from_str("Space: peek   r: reply   Tab: group   /: filter   Esc: close"));
        },
        PopupMode::Workspace => {
            push_line(
                chrome,
                String::from_str("Enter: focus/attach   o: open/reopen   n: new   R: rename   x: kill   p: pin"),
            );
            push_line(
                chrome,
                String::from_str("J/K: reorder   Space: peek   r: reply   Tab: group   /: filter   Esc: close"),
            );
        },
        PopupMode::Tree => {
            push_line(chrome, String::from_str("Enter: focus/attach   R: rename window   x: kill   Space: peek"));
            push_line(chrome, String::from_str("r: reply   Tab: group   /: filter   Esc: close"));
        },
    }
    assert(crate::protocol::views(chrome@) =~= c0 + footer_spec(mode));
}

fn render_chrome(state: &PopupState, peek: Option<&str>) -> (r: Vec<String>)
    ensures
        crate::protocol::views(r@) == chrome_spec(
            state@,
            match peek {
                Some(p) => Some(p@),
                None => None,
            },
        ),
{
    let mut chrome: Vec<String> = Vec::new();
    match peek {
        Some(p) => {
            push_line(&mut chrome, String::from_str("Peek"));
            render_peek_lines(&mut chrome, p);
        },
        None => {},
    }
    let ghost c0 = crate::protocol::views(chrome@);
    push_prompts(&mut chrome, state);
    push_footer(&mut chrome, state.mode);
    proof {
        let pv = match peek {
            Some(p) => Some(p@),
            None => None::<Seq<char>>,
        };
        let head = match pv {
            Some(p) => seq!["Peek"@] + peek_lines(crate::text::text_lines(p)),
            None => Seq::<Seq<char>>::empty(),
        };
        assert(c0 =~= head);
        assert(crate::protocol::views(chrome@) =~= chrome_spec(state@, pv));
    }
    chrome
}

/// Renders the popup: the list, then the lines that stay on screen.
pub fn render_popup_view(state: &PopupState, model: &PopupModel, peek: Option<&str>) -> (r: PopupView)
    ensures
        ({
            let (lines, focus, pinned, count) = render_view_spec(
                state@,
                row_views(model.rows@),
                match peek {
                    Some(p) => Some(p@),
                    None => None,
                },
            );
            &&& crate::protocol::views(r.lines@) == lines
            &&& r.focus_line == focus
            &&& r.pinned_tail == pinned
            &&& r.count == count
        }),
{
    let count = render_count(state, model);
    let (list, focus_line) = render_list(state, model);
    let chrome = render_chrome(state, peek);
    let pinned_tail = chrome.len();
    let ghost lv = crate::protocol::views(list@);
    let mut lines = list;
    let mut k: usize = 0;
    while k < chrome.len()
        invariant
            k <= chrome.len(),
            crate::protocol::views(lines@) == lv + crate::protocol::views(chrome@).take(k as int),
        decreases chrome.len() - k,
    {
        let ghost before = lines@;
        lines.push(chrome[k].clone());
        assert(crate::protocol::views(lines@) =~= crate::protocol::views(before).push(chrome@[k as int]@));
        assert(crate::protocol::views(chrome@).take(k + 1) =~= crate::protocol::views(chrome@).take(k as int).push(
            chrome@[k as int]@,
        ));
        k = k + 1;
    }
    assert(crate::protocol::views(chrome@).take(k as int) =~= crate::protocol::views(chrome@));
    PopupView { lines, focus_line, pinned_tail, count }
}

fn join_lines(v: &Vec<String>) -> (r: String)
    ensures
        r@ == crate::text::join(crate::protocol::views(v@), '\n'),
{
    let ghost a = crate::protocol::views(v@);
    let mut out = String::new();
    let mut k: usize = 0;
    assert(a.take(0) =~= Seq::<Seq<char>>::empty());
    while k < v.len()
        invariant
            k <= v.len(),
            a == crate::protocol::views(v@),
            out@ == crate::text::join(a.take(k as int), '\n'),
        decreases v.len() - k,
    {
        proof {
            assert(a.take(k + 1).drop_last() =~= a.take(k as int));
            assert(a.take(k + 1).last() == v@[k as int]@);
        }
        if k > 0 {
            push_char(&mut out, '\n');
        } else {
            assert(a.take(1) =~= seq![v@[0]@]);
            assert(out@ =~= Seq::<char>::empty());
        }
        out = concat_str(out.as_str(), v[k].as_str());
        proof {
            if k == 0 {
                assert(out@ =~= v@[0]@);
            }
        }
        k = k + 1;
    }
    assert(a.take(k as int) =~= a);
    out
}

/// The rendered popup as one text, its lines joined with newlines.
pub fn render_popup_text(state: &PopupState, model: &PopupModel, peek: Option<&str>) -> (r: String)
    ensures
        r@ == crate::text::join(
            render_view_spec(
                state@,
                row_views(model.rows@),
                match peek {
                    Some(p) => Some(p@),
                    None => None,
                },
            ).0,
            '\n',
        ),
{
    let view = render_popup_view(state, model, peek);
    join_lines(&view.lines)
}


/// What `String::from_utf8_lossy` gives for some bytes.
pub uninterp spec fn utf8_lossy(b: Seq<u8>) -> Seq<char>;

/// Decodes bytes as UTF-8, replacing invalid sequences (std's
/// `String::from_utf8_lossy`): valid UTF-8 decodes exactly; what it gives
/// for invalid sequences is left unsaid here.
#[verifier::external_body]
pub(crate) fn string_from_utf8_lossy(b: &[u8]) -> (r: String)
    ensures
        r@ == utf8_lossy(b@),
        vstd::utf8::valid_utf8(b@) ==> r@ == vstd::utf8::decode_utf8(b@),
{
    String::from_utf8_lossy(b).into_owned()
}

/// The peek text of a session: its metadata lines, then under
/// `capture tail` the last `max_rows - 1` lines of the last `max_bytes`
/// bytes of its capture; the lines joined with newlines.
pub open spec fn peek_text_spec(metadata: Seq<char>, capture: Seq<char>, max_rows: nat, max_bytes: nat) -> Seq<char> {
    let bytes = vstd::utf8::encode_utf8(capture);
    let start: int = if bytes.len() > max_bytes {
        bytes.len() - max_bytes
    } else {
        0
    };
    let tail = utf8_lossy(bytes.skip(start));
    let rows: int = if max_rows >= 1 {
        max_rows - 1
    } else {
        0
    };
    let cl = crate::text::text_lines(tail);
    let kept = if cl.len() > rows {
        cl.skip(cl.len() - rows)
    } else {
        cl
    };
    let lines = crate::text::text_lines(metadata) + (if kept.len() > 0 {
        seq!["capture tail"@] + kept
    } else {
        Seq::empty()
    });
    crate::text::join(lines, '\n')
}

fn push_char_lines(out: &mut Vec<String>, ls: &Vec<Vec<char>>, from: usize)
    requires
        from <= ls.len(),
    ensures
        crate::protocol::views(final(out)@) == crate::protocol::views(old(out)@) + ls@.map_values(
            |l: Vec<char>| l@,
        ).skip(from as int),
{
    let ghost start = crate::protocol::views(out@);
    let ghost lv = ls@.map_values(|l: Vec<char>| l@);
    let mut k = from;
    assert(start + lv.subrange(from as int, from as int) =~= start);
    while k < ls.len()
        invariant
            from <= k <= ls.len(),
            lv == ls@.map_values(|l: Vec<char>| l@),
            crate::protocol::views(out@) == start + lv.subrange(from as int, k as int),
        decreases ls.len() - k,
    {
        let ghost before = crate::protocol::views(out@);
        push_line(out, string_from_chars(&ls[k]));
        assert(before.push(lv[k as int]) =~= start + lv.subrange(from as int, k + 1));
        k = k + 1;
    }
    assert(lv.subrange(from as int, k as int) =~= lv.skip(from as int));
}

/// The peek text of a session: metadata, then the tail of its capture.
pub fn render_peek_text(metadata: &str, capture: &str, max_rows: usize, max_bytes: usize) -> (r: String)
    ensures
        r@ == peek_text_spec(metadata@, capture@, max_rows as nat, max_bytes as nat),
{
    let cchars = chars_of(capture);
    let bytes = crate::text::utf8_bytes(&cchars);
    let start = bytes.len().saturating_sub(max_bytes);
    let mut tail_bytes: Vec<u8> = Vec::new();
    let mut i = start;
    while i < bytes.len()
        invariant
            start <= i <= bytes.len(),
            tail_bytes@ =~= bytes@.subrange(start as int, i as int),
        decreases bytes.len() - i,
    {
        tail_bytes.push(bytes[i]);
        i = i + 1;
    }
    assert(tail_bytes@ =~= bytes@.skip(start as int));
    let tail = string_from_utf8_lossy(&tail_bytes);
    let tchars = chars_of(tail.as_str());
    let cl = crate::text::lines_of(&tchars);
    let rows = max_rows.saturating_sub(1);
    let skip = if cl.len() > rows {
        cl.len() - rows
    } else {
        0
    };
    let mchars = chars_of(metadata);
    let ml = crate::text::lines_of(&mchars);
    let ghost clv = cl@.map_values(|l: Vec<char>| l@);
    let ghost mlv = ml@.map_values(|l: Vec<char>| l@);
    proof {
        assert(clv =~= crate::text::text_lines(tail@));
        assert(mlv =~= crate::text::text_lines(metadata@));
    }
    let mut lines: Vec<String> = Vec::new();
    push_char_lines(&mut lines, &ml, 0);
    assert(mlv.skip(0) =~= mlv);
    if skip < cl.len() {
        push_line(&mut lines, String::from_str("capture tail"));
        push_char_lines(&mut lines, &cl, skip);
        proof {
            let kept = clv.skip(skip as int);
            assert(crate::protocol::views(lines@) =~= mlv + (seq!["capture tail"@] + kept));
        }
    } else {
        assert(crate::protocol::views(lines@) =~= mlv + Seq::<Seq<char>>::empty());
    }
    proof {
        let kept = if clv.len() > rows {
            clv.skip(clv.len() - rows)
        } else {
            clv
        };
        assert(kept =~= clv.skip(skip as int));
    }
    join_lines(&lines)
}


/// A text found inside one part of a longer text is found in the whole.
proof fn lemma_contains_in_middle(a: Seq<char>, m: Seq<char>, b: Seq<char>, needle: Seq<char>)
    requires
        contains_seq(m, needle),
    ensures
        contains_seq(a + m + b, needle),
{
    let i = choose|i: int|
        0 <= i && i + needle.len() <= m.len() && #[trigger] m.subrange(i, i + needle.len()) == needle;
    let whole = a + m + b;
    let j = a.len() + i;
    assert(whole.subrange(j, j + needle.len()) =~= m.subrange(i, i + needle.len()));
}

/// An item that is not a header and matches the needle is among the rows
/// kept from any earlier row on.
proof fn lemma_filter_from_keeps(
    rows: Seq<PopupRowView>,
    needle: Seq<char>,
    j: int,
    pending: Option<PopupRowView>,
    k: int,
)
    requires
        0 <= j <= k < rows.len(),
        rows[k].kind != PopupRowKind::Header,
        contains_seq(row_haystack(rows[k]), needle),
    ensures
        filter_from(rows, needle, j, pending).contains(rows[k]),
    decreases k - j,
{
    let head = match pending {
        Some(h) => seq![h],
        None => Seq::<PopupRowView>::empty(),
    };
    if j == k {
        let r = head + seq![rows[k]] + filter_from(rows, needle, k + 1, None);
        assert(r[head.len() as int] == rows[k]);
    } else if rows[j].kind == PopupRowKind::Header {
        lemma_filter_from_keeps(rows, needle, j + 1, Some(rows[j]), k);
    } else if contains_seq(row_haystack(rows[j]), needle) {
        lemma_filter_from_keeps(rows, needle, j + 1, None, k);
        let rest = filter_from(rows, needle, j + 1, None);
        let i = choose|i: int| 0 <= i < rest.len() && rest[i] == rows[k];
        let r = head + seq![rows[j]] + rest;
        assert(r[head.len() + 1 + i] == rows[k]);
    } else {
        lemma_filter_from_keeps(rows, needle, j + 1, pending, k);
    }
}

/// Filtering ignores ASCII letter case: an item whose title or summary
/// contains the filter's text (without its surrounding whitespace), with
/// letters compared regardless of case, is always kept.
pub proof fn law_filter_keeps_case_insensitive_match(rows: Seq<PopupRowView>, filter: Seq<char>, k: int)
    requires
        0 <= k < rows.len(),
        rows[k].kind != PopupRowKind::Header,
        contains_seq(crate::config::lower(rows[k].title), crate::config::lower(crate::text::trim(filter)))
            || contains_seq(
            crate::config::lower(rows[k].summary),
            crate::config::lower(crate::text::trim(filter)),
        ),
    ensures
        filter_rows_spec(rows, filter).contains(rows[k]),
{
    let needle = crate::config::lower(crate::text::trim(filter));
    if needle.len() == 0 {
        assert(rows[k] == rows[k]);
    } else {
        let row = rows[k];
        let repo = match row.repo_path {
            Some(p) => p,
            None => Seq::empty(),
        };
        let target = match row.target {
            Some(t) => t.session + " "@ + opt_decimal(t.window_index) + " "@ + opt_decimal(t.pane_index),
            None => Seq::empty(),
        };
        let before = repo + " "@ + target + " "@;
        let after = " "@ + row.summary + " "@ + state_name(row.state);
        assert(repo + " "@ + target + " "@ + row.title + " "@ + row.summary + " "@ + state_name(row.state)
            =~= before + row.title + after);
        assert(crate::config::lower(before + row.title + after) =~= crate::config::lower(before)
            + crate::config::lower(row.title) + crate::config::lower(after));
        if contains_seq(crate::config::lower(row.title), needle) {
            lemma_contains_in_middle(
                crate::config::lower(before),
                crate::config::lower(row.title),
                crate::config::lower(after),
                needle,
            );
        } else {
            let before2 = before + row.title + " "@;
            let after2 = " "@ + state_name(row.state);
            assert(before + row.title + after =~= before2 + row.summary + after2);
            assert(crate::config::lower(before2 + row.summary + after2) =~= crate::config::lower(before2)
                + crate::config::lower(row.summary) + crate::config::lower(after2));
            lemma_contains_in_middle(
                crate::config::lower(before2),
                crate::config::lower(row.summary),
                crate::config::lower(after2),
                needle,
            );
        }
        assert(contains_seq(row_haystack(row), needle));
        lemma_filter_from_keeps(rows, needle, 0, None, k);
    }
}

} // verus!
