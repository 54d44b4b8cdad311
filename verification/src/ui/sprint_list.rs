//! The sprint list view: a table of the sprint's backlog items with a
//! selection, loading of item details one at a time or all in the
//! background, and a status line.

use vstd::prelude::*;
use vstd::string::*;
use crate::input::{Key, KeyKind};
use crate::text::{decimal, u64_to_decimal};
use crate::jira::sprint::{Pbi, PbiView, pbis_view, sort_by_status, sorted_by_status};
use crate::jira::fetch::{apply_pbi_details, details_applied};
use crate::json_doc::json_data;
use crate::text::{ascii_lowercase, contains_str, has_substring};
use crate::jira::sprint::{lowercase_of, to_lowercase, done_word, closed_word, progress_word, review_word, blocked_word};

verus! {

/// Messages from the background "load all" worker to the view.
pub enum LoadMsg {
    /// The worker is about to fetch this index.
    Progress(usize),
    /// Successfully fetched; carries the enriched item.
    ItemDone(usize, Pbi),
    /// Fetch failed for this index.
    ItemError(usize, String),
    /// All items finished.
    AllDone,
}

/// What the caller is to do after a key press.
pub enum KeyAction {
    /// Nothing beyond redrawing.
    Nothing,
    /// Fetch the details of the item at `index` (whose key is `key`), then
    /// hand the outcome to [`SprintApp::finish_load_selected`].
    LoadItem { index: usize, key: String },
    /// Fetch the details of each listed item in the background, reporting
    /// through [`LoadMsg`]s to [`SprintApp::apply_load_message`].
    LoadAll(Vec<(usize, Pbi)>),
}

/// The sprint list view.
pub struct SprintApp {
    pub sprint_name: String,
    pub sprint_goal: String,
    pub board_id: String,
    pub pbis: Vec<Pbi>,
    /// The selected row of the table.
    pub selected: Option<usize>,
    pub status_msg: String,
    /// Index currently being fetched.
    pub loading_idx: Option<usize>,
    /// Whether a background "load all" is running.
    pub loading_all: bool,
    pub exit: bool,
}

/// `len.saturating_sub(1)`.
pub open spec fn last_index(len: int) -> int {
    if len == 0 { 0 } else { len - 1 }
}

/// The row selected after moving down: the next one, wrapping to the first.
pub open spec fn next_selection(selected: Option<usize>, len: int) -> int {
    match selected {
        None => 0,
        Some(i) => if i >= last_index(len) { 0 } else { i + 1 },
    }
}

/// The row selected after moving up: the previous one, wrapping to the last.
pub open spec fn prev_selection(selected: Option<usize>, len: int) -> int {
    match selected {
        None => 0,
        Some(i) => if i == 0 { last_index(len) } else { i - 1 },
    }
}

pub open spec fn is_quit_key(key: Key) -> bool {
    key == Key::Char('q') || key == Key::Char('Q') || key == Key::Esc
}

pub open spec fn is_down_key(key: Key) -> bool {
    key == Key::Down || key == Key::Char('j')
}

pub open spec fn is_up_key(key: Key) -> bool {
    key == Key::Up || key == Key::Char('k')
}

pub open spec fn loading_message(key: Seq<char>) -> Seq<char> {
    "Loading "@ + key + "…"@
}

pub open spec fn loaded_message(key: Seq<char>) -> Seq<char> {
    "Loaded "@ + key
}

pub open spec fn load_error_message(key: Seq<char>, error: Seq<char>) -> Seq<char> {
    "Error loading "@ + key + ": "@ + error
}

pub open spec fn loading_all_message(n: nat) -> Seq<char> {
    "Loading all "@ + decimal(n) + " items…"@
}

pub open spec fn progress_message(done: nat, total: nat) -> Seq<char> {
    "Loaded "@ + decimal(done) + "/"@ + decimal(total)
}

pub open spec fn item_error_message(key: Seq<char>, error: Seq<char>) -> Seq<char> {
    "Error "@ + key + ": "@ + error
}

pub open spec fn all_loaded_message(total: nat) -> Seq<char> {
    "All "@ + decimal(total) + " items loaded"@
}

/// The items paired with their positions.
pub open spec fn numbered(s: Seq<PbiView>) -> Seq<(usize, PbiView)> {
    Seq::new(s.len(), |i: int| (i as usize, s[i]))
}

pub open spec fn numbered_view(v: Seq<(usize, Pbi)>) -> Seq<(usize, PbiView)> {
    v.map_values(|e: (usize, Pbi)| (e.0, e.1@))
}

/// The same sprint and items.
pub open spec fn same_sprint(a: SprintApp, b: SprintApp) -> bool {
    &&& a.sprint_name@ == b.sprint_name@
    &&& a.sprint_goal@ == b.sprint_goal@
    &&& a.board_id@ == b.board_id@
    &&& pbis_view(a.pbis@) == pbis_view(b.pbis@)
}

/// Equal in everything that the view shows or remembers.
pub open spec fn same_state(a: SprintApp, b: SprintApp) -> bool {
    &&& same_sprint(a, b)
    &&& a.selected == b.selected
    &&& a.status_msg@ == b.status_msg@
    &&& a.loading_idx == b.loading_idx
    &&& a.loading_all == b.loading_all
    &&& a.exit == b.exit
}

fn usize_decimal(n: usize) -> (r: String)
    ensures
        r@ == decimal(n as nat),
{
    u64_to_decimal(n as u64)
}

impl SprintApp {
    /// The view of a sprint, the first item selected if there is one.
    pub fn new(sprint_name: String, sprint_goal: String, board_id: String, pbis: Vec<Pbi>) -> (r: Self)
        ensures
            r.sprint_name == sprint_name,
            r.sprint_goal == sprint_goal,
            r.board_id == board_id,
            r.pbis == pbis,
            r.selected == (if pbis@.len() == 0 { None::<usize> } else { Some(0usize) }),
            r.status_msg@ == Seq::<char>::empty(),
            r.loading_idx is None,
            !r.loading_all,
            !r.exit,
    {
        let selected = if pbis.len() == 0 {
            None
        } else {
            Some(0)
        };
        SprintApp {
            sprint_name,
            sprint_goal,
            board_id,
            pbis,
            selected,
            status_msg: String::new(),
            loading_idx: None,
            loading_all: false,
            exit: false,
        }
    }
}

impl SprintApp {
    /// The items, each paired with its position.
    pub fn numbered_items(&self) -> (r: Vec<(usize, Pbi)>)
        ensures
            numbered_view(r@) == numbered(pbis_view(self.pbis@)),
    {
        let mut r: Vec<(usize, Pbi)> = Vec::new();
        let n = self.pbis.len();
        let mut i: usize = 0;
        while i < n
            invariant
                n == self.pbis@.len(),
                i <= n,
                numbered_view(r@) == numbered(pbis_view(self.pbis@)).subrange(0, i as int),
            decreases n - i,
        {
            let ghost before = r@;
            let p = self.pbis[i].duplicate();
            r.push((i, p));
            assert(numbered_view(r@) =~= numbered_view(before).push((i, p@)));
            i = i + 1;
            assert(numbered_view(r@) =~= numbered(pbis_view(self.pbis@)).subrange(0, i as int));
        }
        assert(numbered(pbis_view(self.pbis@)).subrange(0, n as int) =~= numbered(
            pbis_view(self.pbis@),
        ));
        r
    }

    /// React to a key event. Presses of q, Q or Esc quit; Down / j and Up / k
    /// move the selection (wrapping around) and clear the status line; l
    /// starts loading the details of the selected item; L starts loading
    /// all items unless that is already under way. Anything else, and any
    /// event that is not a press, changes nothing.
    pub fn handle_key(&mut self, kind: KeyKind, key: Key) -> (r: KeyAction)
        requires
            kind == KeyKind::Press && key == Key::Char('l') ==> match old(self).selected {
                Some(i) => i < old(self).pbis@.len(),
                None => true,
            },
        ensures
            kind != KeyKind::Press ==> same_state(*final(self), *old(self)) && r is Nothing,
            kind == KeyKind::Press && is_quit_key(key) ==> {
                &&& same_sprint(*final(self), *old(self))
                &&& final(self).selected == old(self).selected
                &&& final(self).status_msg@ == old(self).status_msg@
                &&& final(self).loading_idx == old(self).loading_idx
                &&& final(self).loading_all == old(self).loading_all
                &&& final(self).exit
                &&& r is Nothing
            },
            kind == KeyKind::Press && (is_down_key(key) || is_up_key(key)) ==> {
                &&& same_sprint(*final(self), *old(self))
                &&& final(self).selected == Some((if is_down_key(key) {
                    next_selection(old(self).selected, old(self).pbis@.len() as int)
                } else {
                    prev_selection(old(self).selected, old(self).pbis@.len() as int)
                }) as usize)
                &&& final(self).status_msg@ == Seq::<char>::empty()
                &&& final(self).loading_idx == old(self).loading_idx
                &&& final(self).loading_all == old(self).loading_all
                &&& final(self).exit == old(self).exit
                &&& r is Nothing
            },
            kind == KeyKind::Press && key == Key::Char('l') ==> match old(self).selected {
                None => same_state(*final(self), *old(self)) && r is Nothing,
                Some(i) => {
                    &&& same_sprint(*final(self), *old(self))
                    &&& final(self).selected == old(self).selected
                    &&& final(self).status_msg@ == loading_message(old(self).pbis@[i as int].key@)
                    &&& final(self).loading_idx == Some(i)
                    &&& final(self).loading_all == old(self).loading_all
                    &&& final(self).exit == old(self).exit
                    &&& r matches KeyAction::LoadItem { index, key } && index == i && key@
                        == old(self).pbis@[i as int].key@
                },
            },
            kind == KeyKind::Press && key == Key::Char('L') ==> if old(self).loading_all {
                same_state(*final(self), *old(self)) && r is Nothing
            } else {
                &&& same_sprint(*final(self), *old(self))
                &&& final(self).selected == old(self).selected
                &&& final(self).status_msg@ == loading_all_message(old(self).pbis@.len())
                &&& final(self).loading_idx == old(self).loading_idx
                &&& final(self).loading_all
                &&& final(self).exit == old(self).exit
                &&& r matches KeyAction::LoadAll(items) && numbered_view(items@) == numbered(
                    pbis_view(old(self).pbis@),
                )
            },
            kind == KeyKind::Press && !is_quit_key(key) && !is_down_key(key) && !is_up_key(key)
                && key != Key::Char('l') && key != Key::Char('L') ==> same_state(
                *final(self),
                *old(self),
            ) && r is Nothing,
    {
        if kind != KeyKind::Press {
            return KeyAction::Nothing;
        }
        match key {
            Key::Char('q') | Key::Char('Q') | Key::Esc => {
                self.exit = true;
                KeyAction::Nothing
            },
            Key::Down | Key::Char('j') => {
                let len = self.pbis.len();
                let last = if len == 0 { 0 } else { len - 1 };
                let next = match self.selected {
                    None => 0,
                    Some(i) => if i >= last { 0 } else { i + 1 },
                };
                self.selected = Some(next);
                self.status_msg = String::new();
                KeyAction::Nothing
            },
            Key::Up | Key::Char('k') => {
                let len = self.pbis.len();
                let last = if len == 0 { 0 } else { len - 1 };
                let prev = match self.selected {
                    None => 0,
                    Some(i) => if i == 0 { last } else { i - 1 },
                };
                self.selected = Some(prev);
                self.status_msg = String::new();
                KeyAction::Nothing
            },
            Key::Char('l') => {
                match self.selected {
                    None => KeyAction::Nothing,
                    Some(i) => {
                        let key = self.pbis[i].key.clone();
                        self.loading_idx = Some(i);
                        let mut msg = String::from_str("Loading ");
                        msg.append(key.as_str());
                        msg.append("…");
                        self.status_msg = msg;
                        KeyAction::LoadItem { index: i, key }
                    },
                }
            },
            Key::Char('L') => {
                if self.loading_all {
                    KeyAction::Nothing
                } else {
                    let items = self.numbered_items();
                    assert(numbered_view(items@).len() == items@.len());
                    assert(items@.len() == self.pbis@.len());
                    let mut msg = String::from_str("Loading all ");
                    let count = usize_decimal(items.len());
                    msg.append(count.as_str());
                    msg.append(" items…");
                    self.status_msg = msg;
                    self.loading_all = true;
                    KeyAction::LoadAll(items)
                }
            },
            _ => KeyAction::Nothing,
        }
    }
}

impl SprintApp {
    /// Replaces the item at `index` by `p`.
    fn replace_item(&mut self, index: usize, p: Pbi)
        requires
            index < old(self).pbis@.len(),
        ensures
            pbis_view(final(self).pbis@) == pbis_view(old(self).pbis@).update(index as int, p@),
            final(self).sprint_name == old(self).sprint_name,
            final(self).sprint_goal == old(self).sprint_goal,
            final(self).board_id == old(self).board_id,
            final(self).selected == old(self).selected,
            final(self).status_msg == old(self).status_msg,
            final(self).loading_idx == old(self).loading_idx,
            final(self).loading_all == old(self).loading_all,
            final(self).exit == old(self).exit,
    {
        let _ = self.pbis.remove(index);
        self.pbis.insert(index, p);
        assert(pbis_view(self.pbis@) =~= pbis_view(old(self).pbis@).update(index as int, p@));
    }

    /// Conclude the loading of the selected item started by
    /// [`SprintApp::handle_key`]: with the response to the details request,
    /// the item takes its details, the list is sorted again and the cache is
    /// to be saved (`true` is returned); with an error, only the status line
    /// reports it. Either way nothing is being loaded afterwards.
    pub fn finish_load_selected(
        &mut self,
        index: usize,
        key: &str,
        outcome: Result<&json::JsonValue, &str>,
    ) -> (save: bool)
        requires
            index < old(self).pbis@.len(),
        ensures
            final(self).sprint_name@ == old(self).sprint_name@,
            final(self).sprint_goal@ == old(self).sprint_goal@,
            final(self).board_id@ == old(self).board_id@,
            final(self).selected == old(self).selected,
            final(self).loading_idx is None,
            final(self).loading_all == old(self).loading_all,
            final(self).exit == old(self).exit,
            match outcome {
                Ok(response) => {
                    &&& pbis_view(final(self).pbis@) == sorted_by_status(
                        pbis_view(old(self).pbis@).update(
                            index as int,
                            details_applied(old(self).pbis@[index as int]@, json_data(*response)),
                        ),
                    )
                    &&& final(self).status_msg@ == loaded_message(key@)
                    &&& save
                },
                Err(e) => {
                    &&& pbis_view(final(self).pbis@) == pbis_view(old(self).pbis@)
                    &&& final(self).status_msg@ == load_error_message(key@, e@)
                    &&& !save
                },
            },
    {
        let save = match outcome {
            Ok(response) => {
                let mut p = self.pbis[index].duplicate();
                apply_pbi_details(&mut p, response);
                self.replace_item(index, p);
                sort_by_status(&mut self.pbis);
                let mut msg = String::from_str("Loaded ");
                msg.append(key);
                self.status_msg = msg;
                true
            },
            Err(e) => {
                let mut msg = String::from_str("Error loading ");
                msg.append(key);
                msg.append(": ");
                msg.append(e);
                self.status_msg = msg;
                false
            },
        };
        self.loading_idx = None;
        save
    }

    /// Take one message of the background "load all" worker. Returns `true`
    /// once all items are done: the worker is finished and the cache is to
    /// be saved.
    pub fn apply_load_message(&mut self, msg: LoadMsg) -> (done: bool)
        requires
            msg matches LoadMsg::ItemDone(idx, _) ==> idx < usize::MAX,
        ensures
            final(self).pbis@.len() == old(self).pbis@.len(),
            final(self).sprint_name@ == old(self).sprint_name@,
            final(self).sprint_goal@ == old(self).sprint_goal@,
            final(self).board_id@ == old(self).board_id@,
            final(self).selected == old(self).selected,
            final(self).exit == old(self).exit,
            match msg {
                LoadMsg::Progress(idx) => {
                    &&& pbis_view(final(self).pbis@) == pbis_view(old(self).pbis@)
                    &&& final(self).status_msg@ == old(self).status_msg@
                    &&& final(self).loading_idx == Some(idx)
                    &&& final(self).loading_all == old(self).loading_all
                    &&& !done
                },
                LoadMsg::ItemDone(idx, p) => {
                    &&& pbis_view(final(self).pbis@) == (if idx < old(self).pbis@.len() {
                        pbis_view(old(self).pbis@).update(idx as int, p@)
                    } else {
                        pbis_view(old(self).pbis@)
                    })
                    &&& final(self).status_msg@ == progress_message(
                        (idx + 1) as nat,
                        old(self).pbis@.len(),
                    )
                    &&& final(self).loading_idx == old(self).loading_idx
                    &&& final(self).loading_all == old(self).loading_all
                    &&& !done
                },
                LoadMsg::ItemError(idx, e) => {
                    &&& pbis_view(final(self).pbis@) == pbis_view(old(self).pbis@)
                    &&& final(self).status_msg@ == item_error_message(
                        if idx < old(self).pbis@.len() {
                            old(self).pbis@[idx as int].key@
                        } else {
                            "?"@
                        },
                        e@,
                    )
                    &&& final(self).loading_idx == old(self).loading_idx
                    &&& final(self).loading_all == old(self).loading_all
                    &&& !done
                },
                LoadMsg::AllDone => {
                    &&& pbis_view(final(self).pbis@) == sorted_by_status(pbis_view(old(self).pbis@))
                    &&& final(self).status_msg@ == all_loaded_message(old(self).pbis@.len())
                    &&& final(self).loading_idx is None
                    &&& !final(self).loading_all
                    &&& done
                },
            },
    {
        let total = self.pbis.len();
        match msg {
            LoadMsg::Progress(idx) => {
                self.loading_idx = Some(idx);
                false
            },
            LoadMsg::ItemDone(idx, pbi) => {
                if idx < self.pbis.len() {
                    self.replace_item(idx, pbi);
                    assert(pbis_view(self.pbis@).len() == self.pbis@.len());
                }
                let mut m = String::from_str("Loaded ");
                let done_count = usize_decimal(idx + 1);
                m.append(done_count.as_str());
                m.append("/");
                let total_count = usize_decimal(total);
                m.append(total_count.as_str());
                self.status_msg = m;
                false
            },
            LoadMsg::ItemError(idx, e) => {
                let mut m = String::from_str("Error ");
                if idx < self.pbis.len() {
                    m.append(self.pbis[idx].key.as_str());
                } else {
                    m.append("?");
                }
                m.append(": ");
                m.append(e.as_str());
                self.status_msg = m;
                false
            },
            LoadMsg::AllDone => {
                self.loading_idx = None;
                proof {
                    crate::jira::laws::lemma_sorted_len(pbis_view(self.pbis@));
                }
                sort_by_status(&mut self.pbis);
                assert(pbis_view(self.pbis@).len() == self.pbis@.len());
                let mut m = String::from_str("All ");
                let total_count = usize_decimal(total);
                m.append(total_count.as_str());
                m.append(" items loaded");
                self.status_msg = m;
                self.loading_all = false;
                true
            },
        }
    }
}

/// The colour in which a status is shown.
#[derive(Clone, Copy, Debug, PartialEq, Eq, Structural)]
pub enum StatusColor {
    Green,
    Blue,
    Magenta,
    Red,
    White,
}

/// What the first column of a row shows.
#[derive(Clone, Copy, Debug, PartialEq, Eq, Structural)]
pub enum RowIndicator {
    /// The item is being fetched (⟳).
    Loading,
    /// The item's details are loaded (✓).
    Loaded,
    /// Neither.
    Blank,
}

/// The colour of a status that is already in lowercase: done or closed
/// green, in progress blue, in review magenta, blocked red, anything else
/// white.
pub open spec fn lowered_status_color(s: Seq<char>) -> StatusColor {
    if has_substring(s, done_word()) || has_substring(s, closed_word()) {
        StatusColor::Green
    } else if has_substring(s, progress_word()) {
        StatusColor::Blue
    } else if has_substring(s, review_word()) {
        StatusColor::Magenta
    } else if has_substring(s, blocked_word()) {
        StatusColor::Red
    } else {
        StatusColor::White
    }
}

/// The colour of a status: that of its lowercase.
pub open spec fn status_color_of(status: Seq<char>) -> StatusColor {
    lowered_status_color(lowercase_of(status))
}

/// The colour of a status that is already in lowercase.
pub fn lowered_color(lowered: &str) -> (r: StatusColor)
    ensures
        r == lowered_status_color(lowered@),
{
    proof {
        reveal_strlit("done");
        reveal_strlit("closed");
        reveal_strlit("blocked");
        reveal_strlit("review");
        reveal_strlit("progress");
        assert("done"@ =~= done_word());
        assert("closed"@ =~= closed_word());
        assert("blocked"@ =~= blocked_word());
        assert("review"@ =~= review_word());
        assert("progress"@ =~= progress_word());
    }
    if contains_str(lowered, "done") || contains_str(lowered, "closed") {
        StatusColor::Green
    } else if contains_str(lowered, "progress") {
        StatusColor::Blue
    } else if contains_str(lowered, "review") {
        StatusColor::Magenta
    } else if contains_str(lowered, "blocked") {
        StatusColor::Red
    } else {
        StatusColor::White
    }
}

/// The colour of a lowercase status goes by the words it contains, checked
/// in this order: "done" or "closed" green, "progress" blue, "review"
/// magenta (in review, code review, peer review alike), "blocked" red, and
/// white when it holds none of them.
pub proof fn law_status_colors(s: Seq<char>)
    ensures
        has_substring(s, "done"@) || has_substring(s, "closed"@) ==> lowered_status_color(s)
            == StatusColor::Green,
        !has_substring(s, "done"@) && !has_substring(s, "closed"@) && has_substring(s, "progress"@)
            ==> lowered_status_color(s) == StatusColor::Blue,
        !has_substring(s, "done"@) && !has_substring(s, "closed"@) && !has_substring(s, "progress"@)
            && has_substring(s, "review"@) ==> lowered_status_color(s) == StatusColor::Magenta,
        !has_substring(s, "done"@) && !has_substring(s, "closed"@) && !has_substring(s, "progress"@)
            && !has_substring(s, "review"@) && has_substring(s, "blocked"@) ==> lowered_status_color(s)
            == StatusColor::Red,
        !has_substring(s, "done"@) && !has_substring(s, "closed"@) && !has_substring(s, "progress"@)
            && !has_substring(s, "review"@) && !has_substring(s, "blocked"@) ==> lowered_status_color(s)
            == StatusColor::White,
{
    reveal_strlit("done");
    reveal_strlit("closed");
    reveal_strlit("blocked");
    reveal_strlit("review");
    reveal_strlit("progress");
    assert("done"@ =~= done_word());
    assert("closed"@ =~= closed_word());
    assert("blocked"@ =~= blocked_word());
    assert("review"@ =~= review_word());
    assert("progress"@ =~= progress_word());
}

/// The colour in which the table shows a status.
pub fn status_color(status: &str) -> (r: StatusColor)
    ensures
        r == status_color_of(status@),
        vstd::utf8::is_ascii_chars(status@) ==> r == lowered_status_color(ascii_lowercase(status@)),
{
    let s = to_lowercase(status);
    lowered_color(s.as_str())
}

impl SprintApp {
    /// Height of the sprint goal panel: none for an empty goal, else three
    /// lines.
    pub fn goal_height(&self) -> (r: u16)
        ensures
            r == (if self.sprint_goal@.len() == 0 { 0u16 } else { 3u16 }),
    {
        if self.sprint_goal.as_str().is_empty() {
            0
        } else {
            3
        }
    }

    /// The first column of row `idx`: the loading mark for the item being
    /// fetched, else the loaded mark for a loaded item.
    pub fn row_indicator(&self, idx: usize) -> (r: RowIndicator)
        requires
            idx < self.pbis@.len(),
        ensures
            r == (if self.loading_idx == Some(idx) {
                RowIndicator::Loading
            } else if self.pbis@[idx as int].loaded {
                RowIndicator::Loaded
            } else {
                RowIndicator::Blank
            }),
    {
        match self.loading_idx {
            Some(i) => if i == idx {
                return RowIndicator::Loading;
            },
            None => {},
        }
        if self.pbis[idx].loaded {
            RowIndicator::Loaded
        } else {
            RowIndicator::Blank
        }
    }

    /// The title of the table: the number of items.
    pub fn items_title(&self) -> (r: String)
        ensures
            r@ == " "@ + decimal(self.pbis@.len()) + " items "@,
    {
        let mut r = String::from_str(" ");
        let count = usize_decimal(self.pbis.len());
        r.append(count.as_str());
        r.append(" items ");
        r
    }

    /// The status part of the footer: nothing, or the message in brackets.
    pub fn footer_status(&self) -> (r: String)
        ensures
            r@ == (if self.status_msg@.len() == 0 {
                Seq::<char>::empty()
            } else {
                "  ["@ + self.status_msg@ + "]"@
            }),
    {
        if self.status_msg.as_str().is_empty() {
            String::new()
        } else {
            let mut r = String::from_str("  [");
            r.append(self.status_msg.as_str());
            r.append("]");
            r
        }
    }
}

/// Moving the selection never leaves the table: with at least one item, the
/// row selected after moving down or up exists.
pub proof fn law_selection_stays_in_range(selected: Option<usize>, len: int)
    requires
        len > 0,
        selected matches Some(i) ==> i < len,
    ensures
        0 <= next_selection(selected, len) < len,
        0 <= prev_selection(selected, len) < len,
{
}

/// Moving down and then up returns to the row selected before.
pub proof fn law_down_then_up(i: usize, len: int)
    requires
        i < len,
        len <= usize::MAX,
    ensures
        prev_selection(Some(next_selection(Some(i), len) as usize), len) == i,
{
}

/// Moving up and then down returns to the row selected before.
pub proof fn law_up_then_down(i: usize, len: int)
    requires
        i < len,
        len <= usize::MAX,
    ensures
        next_selection(Some(prev_selection(Some(i), len) as usize), len) == i,
{
}

/// Moving down as many times as there are items comes back to the start.
pub proof fn law_down_cycles(i: usize, len: int)
    requires
        i < len,
        len <= usize::MAX,
    ensures
        down_steps(i as int, len, len as nat) == i,
{
    lemma_down_steps(i as int, len, len as nat);
    assert((i + len) % len == i) by (nonlinear_arith)
        requires 0 <= i < len;
}

/// The row selected after moving down `n` times from row `i`.
pub open spec fn down_steps(i: int, len: int, n: nat) -> int
    decreases n,
{
    if n == 0 {
        i
    } else {
        next_selection(Some(down_steps(i, len, (n - 1) as nat) as usize), len)
    }
}

proof fn lemma_down_steps(i: int, len: int, n: nat)
    requires
        0 <= i < len,
        len <= usize::MAX,
    ensures
        down_steps(i, len, n) == (i + n) % len,
    decreases n,
{
    if n > 0 {
        lemma_down_steps(i, len, (n - 1) as nat);
        let prev = (i + n - 1) % len;
        assert(0 <= prev < len) by (nonlinear_arith)
            requires len > 0, prev == (i + n - 1) % len;
        if prev == len - 1 {
            assert((i + n) % len == 0) by (nonlinear_arith)
                requires len > 0, prev == (i + n - 1) % len, prev == len - 1;
        } else {
            assert((i + n) % len == prev + 1) by (nonlinear_arith)
                requires len > 0, prev == (i + n - 1) % len, prev < len - 1, 0 <= prev;
        }
    } else {
        assert(i % len == i) by (nonlinear_arith)
            requires 0 <= i < len;
    }
}

/// What the messages of the "load all" worker act on: the items, the status
/// line, the index being fetched and whether a load runs.
pub struct LoadState {
    pub pbis: Seq<PbiView>,
    pub status: Seq<char>,
    pub loading_idx: Option<usize>,
    pub loading_all: bool,
}

/// The part of a view that the worker's messages act on.
pub open spec fn load_state(a: SprintApp) -> LoadState {
    LoadState {
        pbis: pbis_view(a.pbis@),
        status: a.status_msg@,
        loading_idx: a.loading_idx,
        loading_all: a.loading_all,
    }
}

/// The effect of one message: `Progress` marks the index being fetched;
/// `ItemDone` puts the delivered item in place (when the index is on the
/// list) and shows the progress; `ItemError` shows the error with the key of
/// the item (`?` off the list); `AllDone` sorts the items by workflow stage,
/// says all are loaded and ends the load.
pub open spec fn load_step(s: LoadState, m: LoadMsg) -> LoadState {
    match m {
        LoadMsg::Progress(idx) => LoadState { loading_idx: Some(idx), ..s },
        LoadMsg::ItemDone(idx, p) => LoadState {
            pbis: if idx < s.pbis.len() { s.pbis.update(idx as int, p@) } else { s.pbis },
            status: progress_message((idx + 1) as nat, s.pbis.len()),
            ..s
        },
        LoadMsg::ItemError(idx, e) => LoadState {
            status: item_error_message(
                if idx < s.pbis.len() { s.pbis[idx as int].key } else { "?"@ },
                e@,
            ),
            ..s
        },
        LoadMsg::AllDone => LoadState {
            pbis: sorted_by_status(s.pbis),
            status: all_loaded_message(s.pbis.len()),
            loading_idx: None,
            loading_all: false,
        },
    }
}

/// The effect of the messages `msgs` taken in order, up to and including the
/// first `AllDone`; the messages after it are not taken.
pub open spec fn load_fold(s: LoadState, msgs: Seq<LoadMsg>) -> LoadState
    decreases msgs.len(),
{
    if msgs.len() == 0 {
        s
    } else if msgs[0] is AllDone {
        load_step(s, msgs[0])
    } else {
        load_fold(load_step(s, msgs[0]), msgs.drop_first())
    }
}

/// Whether `msgs` holds an `AllDone`.
pub open spec fn has_all_done(msgs: Seq<LoadMsg>) -> bool {
    exists|k: int| 0 <= k < msgs.len() && #[trigger] msgs[k] is AllDone
}

/// Whether `msgs` holds an `ItemDone` for index `i` carrying the item `p`.
pub open spec fn delivers(msgs: Seq<LoadMsg>, i: int, p: PbiView) -> bool {
    exists|k: int|
        0 <= k < msgs.len() && (#[trigger] msgs[k] matches LoadMsg::ItemDone(idx, q) && idx == i
            && q@ == p)
}

impl SprintApp {
    /// Take the pending messages of the background "load all" worker in
    /// order, up to and including the first `AllDone`. Returns whether an
    /// `AllDone` came: the worker is then finished and the cache is to be
    /// saved. The list keeps its length; until `AllDone` it is not
    /// reordered, each item either staying or being replaced by an item that
    /// an `ItemDone` for its index delivered.
    pub fn process_load_messages(&mut self, pending: Vec<LoadMsg>) -> (save: bool)
        requires
            forall|k: int|
                0 <= k < pending@.len() ==> (#[trigger] pending@[k] matches LoadMsg::ItemDone(idx, _)
                    ==> idx < usize::MAX),
        ensures
            final(self).pbis@.len() == old(self).pbis@.len(),
            final(self).sprint_name@ == old(self).sprint_name@,
            final(self).sprint_goal@ == old(self).sprint_goal@,
            final(self).board_id@ == old(self).board_id@,
            final(self).selected == old(self).selected,
            final(self).exit == old(self).exit,
            load_state(*final(self)) == load_fold(load_state(*old(self)), pending@),
            save == has_all_done(pending@),
            save ==> !final(self).loading_all && final(self).loading_idx is None,
            !save ==> final(self).loading_all == old(self).loading_all,
            !save ==> forall|i: int|
                0 <= i < old(self).pbis@.len() ==> #[trigger] final(self).pbis@[i]@ == old(
                    self,
                ).pbis@[i]@ || delivers(pending@, i, final(self).pbis@[i]@),
    {
        let ghost msgs = pending@;
        let ghost start = pbis_view(self.pbis@);
        let mut queue = pending;
        let ghost mut j: int = 0;
        while queue.len() > 0
            invariant
                0 <= j <= msgs.len(),
                msgs == pending@,
                queue@ == msgs.subrange(j, msgs.len() as int),
                forall|k: int|
                    0 <= k < msgs.len() ==> (#[trigger] msgs[k] matches LoadMsg::ItemDone(idx, _)
                        ==> idx < usize::MAX),
                forall|k: int| 0 <= k < j ==> !(#[trigger] msgs[k] is AllDone),
                self.pbis@.len() == start.len(),
                self.sprint_name@ == old(self).sprint_name@,
                self.sprint_goal@ == old(self).sprint_goal@,
                self.board_id@ == old(self).board_id@,
                self.selected == old(self).selected,
                self.exit == old(self).exit,
                self.loading_all == old(self).loading_all,
                start == pbis_view(old(self).pbis@),
                load_fold(load_state(*self), queue@) == load_fold(load_state(*old(self)), msgs),
                forall|i: int|
                    0 <= i < start.len() ==> #[trigger] self.pbis@[i]@ == start[i] || delivers(
                        msgs.subrange(0, j),
                        i,
                        self.pbis@[i]@,
                    ),
            decreases queue.len(),
        {
            let ghost before = self.pbis@;
            let ghost prior = load_state(*self);
            let ghost rest = queue@;
            let ghost prefix = msgs.subrange(0, j);
            let msg = queue.remove(0);
            assert(msgs[j] == msg);
            let ghost m = msg;
            match msg {
                LoadMsg::AllDone => {
                    let _ = self.apply_load_message(LoadMsg::AllDone);
                    assert(rest[0] is AllDone);
                    assert(load_state(*self) == load_step(prior, rest[0]));
                    assert(msgs[j] is AllDone);
                    assert(has_all_done(msgs));
                    return true;
                },
                other => {
                    let _ = self.apply_load_message(other);
                },
            }
            proof {
                assert(!(rest[0] is AllDone));
                assert(load_state(*self) == load_step(prior, rest[0]));
                assert(queue@ =~= rest.drop_first());
                let next = msgs.subrange(0, j + 1);
                assert(next[j] == m);
                assert forall|k: int| 0 <= k < prefix.len() implies next[k] == prefix[k] by {}
                assert forall|i: int| 0 <= i < start.len() implies #[trigger] self.pbis@[i]@ == start[i]
                    || delivers(next, i, self.pbis@[i]@) by {
                    assert(i < self.pbis@.len() && i < before.len());
                    if self.pbis@[i]@ != before[i]@ {
                        assert(pbis_view(self.pbis@)[i] == self.pbis@[i]@);
                        assert(pbis_view(before)[i] == before[i]@);
                        assert(next[j] matches LoadMsg::ItemDone(idx, q) && idx == i && q@ == self.pbis@[i]@);
                    } else if before[i]@ != start[i] {
                        let k = choose|k: int|
                            0 <= k < prefix.len() && (#[trigger] prefix[k] matches LoadMsg::ItemDone(idx, q)
                                && idx == i && q@ == before[i]@);
                        assert(next[k] == prefix[k]);
                    }
                }
                j = j + 1;
                assert(queue@ =~= msgs.subrange(j, msgs.len() as int));
            }
        }
        assert(j == msgs.len());
        assert(msgs.subrange(0, j) =~= msgs);
        false
    }
}

/// The selection that a table of `len` rows shows for `selected`: none when
/// the table is empty, else the selected row, moved back onto the last row
/// when it lies beyond it.
pub open spec fn shown_selection(selected: Option<usize>, len: int) -> Option<usize> {
    if len == 0 {
        None
    } else {
        match selected {
            Some(i) => if i >= len { Some((len - 1) as usize) } else { Some(i) },
            None => None,
        }
    }
}

impl SprintApp {
    /// Bring the selection onto the list, as ratatui's table widget does to
    /// its state each time it is drawn into a non-empty area; nothing else
    /// changes.
    pub fn sync_selection(&mut self)
        ensures
            final(self).selected == shown_selection(old(self).selected, old(self).pbis@.len() as int),
            final(self).sprint_name == old(self).sprint_name,
            final(self).sprint_goal == old(self).sprint_goal,
            final(self).board_id == old(self).board_id,
            final(self).pbis == old(self).pbis,
            final(self).status_msg == old(self).status_msg,
            final(self).loading_idx == old(self).loading_idx,
            final(self).loading_all == old(self).loading_all,
            final(self).exit == old(self).exit,
    {
        let len = self.pbis.len();
        if len == 0 {
            self.selected = None;
        } else if let Some(i) = self.selected {
            if i >= len {
                self.selected = Some(len - 1);
            }
        }
    }
}

} // verus!
