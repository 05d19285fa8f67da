//! The group list controller: it owns the unfiltered group names, the
//! search term, and the filtered view the matcher produces, and it turns
//! key events into scrolling, searching, selection and refreshes. The
//! paginated listing fetch runs outside; its pages and its failure land
//! here.

use vstd::prelude::*;

use crate::events::{InputEvent, KeyCode, KeyEvent};
use crate::matcher::{
    candidate_views, filter_groups, filter_matches, pair_views, unfiltered,
};
use crate::shared::LoadingState;

verus! {

/// Message the group list sends its owner.
pub enum LogGroupSelectionOutboundMessage {
    SelectedGroup(String),
    ApplySearch,
}

/// The names of one listing page, those the service actually carried.
pub open spec fn some_names(names: Seq<Option<String>>) -> Seq<String>
    decreases names.len(),
{
    if names.len() == 0 {
        Seq::empty()
    } else {
        let init = some_names(names.drop_last());
        match names.last() {
            Some(n) => init.push(n),
            None => init,
        }
    }
}

/// The list state the background listing fetch writes and the render path
/// reads.
pub struct LogGroupListState {
    pub log_groups: Vec<String>,
    pub loading_state: LoadingState,
    pub selected: usize,
}

impl LogGroupListState {
    pub fn new() -> (r: LogGroupListState)
        ensures
            r.log_groups@ =~= Seq::<String>::empty(),
            r.loading_state is Idle,
            r.selected == 0,
    {
        LogGroupListState {
            log_groups: Vec::new(),
            loading_state: LoadingState::Idle,
            selected: 0,
        }
    }

    /// Entry of the listing fetch.
    pub fn begin_fetch(&mut self)
        ensures
            final(self).loading_state is Loading,
            final(self).log_groups == old(self).log_groups,
            final(self).selected == old(self).selected,
    {
        self.loading_state = LoadingState::Loading;
    }

    /// Take in one listing page: append the names it carries, move the
    /// selection to the first row once any group is known, and mark the
    /// list loaded when no page follows. The returned message asks the
    /// owner to re-run the search over the grown list.
    pub fn on_page(&mut self, names: Vec<Option<String>>, has_more: bool) -> (msg:
        LogGroupSelectionOutboundMessage)
        ensures
            final(self).log_groups@ == old(self).log_groups@ + some_names(names@),
            final(self).selected == if final(self).log_groups@.len() > 0 {
                0int
            } else {
                old(self).selected as int
            },
            final(self).loading_state == if has_more {
                old(self).loading_state
            } else {
                LoadingState::Loaded
            },
            msg is ApplySearch,
    {
        let n = names.len();
        let mut j: usize = 0;
        let ghost before = self.log_groups@;
        while j < n
            invariant
                j <= n,
                n == names@.len(),
                self.log_groups@ =~= before + some_names(names@.take(j as int)),
                self.selected == old(self).selected,
                self.loading_state == old(self).loading_state,
            decreases n - j,
        {
            match &names[j] {
                Some(name) => self.log_groups.push(name.clone()),
                None => {},
            }
            proof {
                assert(names@.take(j + 1).drop_last() =~= names@.take(j as int));
                assert(names@.take(j + 1).last() == names@[j as int]);
                assert(self.log_groups@ =~= before + some_names(names@.take(j + 1)));
            }
            j = j + 1;
        }
        proof {
            assert(names@.take(n as int) =~= names@);
        }
        if self.log_groups.len() > 0 {
            self.selected = 0;
        }
        if !has_more {
            self.loading_state = LoadingState::Loaded;
        }
        LogGroupSelectionOutboundMessage::ApplySearch
    }

    /// A failed listing fetch: keep the reason for display and drop the
    /// groups gathered so far.
    pub fn on_fetch_error(&mut self, reason: String)
        ensures
            final(self).loading_state == LoadingState::Error(reason),
            final(self).log_groups@ =~= Seq::<String>::empty(),
            final(self).selected == old(self).selected,
    {
        self.loading_state = LoadingState::Error(reason);
        self.log_groups = Vec::new();
    }
}

/// The selection one step down the list, clamped to the filtered rows.
pub open spec fn next_selection(sel: int, count: int) -> int {
    if sel + 1 < count {
        sel + 1
    } else if count > 0 {
        count - 1
    } else {
        0
    }
}

/// The selection one step up the list.
pub open spec fn previous_selection(sel: int) -> int {
    if sel > 0 {
        sel - 1
    } else {
        0
    }
}

/// The search term after one key while searching: escape clears it, one
/// character extends it, backspace drops the last character.
pub open spec fn edited_term(term: Seq<char>, k: KeyEvent) -> Seq<char> {
    match k.code {
        KeyCode::Esc => Seq::empty(),
        KeyCode::Backspace => if term.len() > 0 {
            term.drop_last()
        } else {
            term
        },
        KeyCode::Char(c) => term.push(c),
        _ => term,
    }
}

/// Where the selection sits after one key event: arrow keys always move it
/// on a press; the vi keys move it only outside search mode, where they are
/// text.
pub open spec fn selection_after(sel: int, count: int, k: KeyEvent, was_searching: bool) -> int {
    if k.is_press {
        if k.code == KeyCode::Down {
            next_selection(sel, count)
        } else if k.code == KeyCode::Up {
            previous_selection(sel)
        } else if !was_searching && k.code == KeyCode::Char('j') {
            next_selection(sel, count)
        } else if !was_searching && k.code == KeyCode::Char('k') {
            previous_selection(sel)
        } else {
            sel
        }
    } else {
        sel
    }
}

/// The message a pressed enter emits: the highlighted row of the filtered
/// list, when there is one.
pub open spec fn selected_message(
    sorted: Seq<(String, Vec<usize>)>,
    sel: int,
    k: KeyEvent,
) -> Option<LogGroupSelectionOutboundMessage> {
    if k.is_press && k.code == KeyCode::Enter && 0 <= sel < sorted.len() {
        Some(LogGroupSelectionOutboundMessage::SelectedGroup(sorted[sel].0))
    } else {
        None
    }
}

/// What one handled event asks the owner to do, besides the mutation of
/// the component itself.
pub struct ListEventOutcome {
    pub message: Option<LogGroupSelectionOutboundMessage>,
    pub start_fetch: bool,
    pub prevent_exit: bool,
}

/// The render-side group list: the shared state, the filtered view, and
/// the search mode.
pub struct LogGroupListComponent {
    pub state: LogGroupListState,
    pub sorted_log_groups: Vec<(String, Vec<usize>)>,
    pub search_term: Vec<char>,
    pub is_searching: bool,
}

impl LogGroupListComponent {
    pub fn new() -> (r: LogGroupListComponent)
        ensures
            r.state.log_groups@ =~= Seq::<String>::empty(),
            r.state.loading_state is Idle,
            r.state.selected == 0,
            r.sorted_log_groups@ =~= Seq::<(String, Vec<usize>)>::empty(),
            r.search_term@ =~= Seq::<char>::empty(),
            !r.is_searching,
    {
        LogGroupListComponent {
            state: LogGroupListState::new(),
            sorted_log_groups: Vec::new(),
            search_term: Vec::new(),
            is_searching: false,
        }
    }

    /// Re-run the matcher over the whole group list and replace the
    /// filtered view wholesale: every candidate when no term is active,
    /// exactly the candidates above the threshold otherwise, always in the
    /// original order.
    pub fn apply_search(&mut self)
        ensures
            old(self).search_term@.len() == 0 ==> pair_views(final(self).sorted_log_groups@)
                == unfiltered(candidate_views(old(self).state.log_groups@)),
            old(self).search_term@.len() > 0 ==> pair_views(final(self).sorted_log_groups@)
                == filter_matches(
                candidate_views(old(self).state.log_groups@),
                old(self).search_term@,
            ),
            final(self).state == old(self).state,
            final(self).search_term == old(self).search_term,
            final(self).is_searching == old(self).is_searching,
    {
        self.sorted_log_groups = filter_groups(&self.state.log_groups, &self.search_term);
    }

    fn scroll_down(&mut self)
        ensures
            final(self).state.selected as int == next_selection(
                old(self).state.selected as int,
                old(self).sorted_log_groups@.len() as int,
            ),
            final(self).state.log_groups == old(self).state.log_groups,
            final(self).state.loading_state == old(self).state.loading_state,
            final(self).sorted_log_groups == old(self).sorted_log_groups,
            final(self).search_term == old(self).search_term,
            final(self).is_searching == old(self).is_searching,
    {
        let count = self.sorted_log_groups.len();
        if count == 0 {
            self.state.selected = 0;
        } else if self.state.selected < count - 1 {
            self.state.selected = self.state.selected + 1;
        } else {
            self.state.selected = count - 1;
        }
    }

    fn scroll_up(&mut self)
        ensures
            final(self).state.selected as int == previous_selection(
                old(self).state.selected as int,
            ),
            final(self).state.log_groups == old(self).state.log_groups,
            final(self).state.loading_state == old(self).state.loading_state,
            final(self).sorted_log_groups == old(self).sorted_log_groups,
            final(self).search_term == old(self).search_term,
            final(self).is_searching == old(self).is_searching,
    {
        if self.state.selected > 0 {
            self.state.selected = self.state.selected - 1;
        }
    }

    /// Turn one input event into the component's next state and what the
    /// owner must do. Arrows move the selection; enter emits the
    /// highlighted group; while searching, keys edit the term and the
    /// filtered view follows; outside search, the slash key enters search
    /// mode, the vi keys scroll, and the refresh key asks for a new
    /// listing fetch unless one is in flight.
    pub fn handle_event(&mut self, event: &InputEvent) -> (r: ListEventOutcome)
        ensures
            final(self).state.log_groups == old(self).state.log_groups,
            final(self).state.loading_state == old(self).state.loading_state,
            match *event {
                InputEvent::Key(k) => {
                    &&& final(self).state.selected as int == selection_after(
                        old(self).state.selected as int,
                        old(self).sorted_log_groups@.len() as int,
                        k,
                        old(self).is_searching,
                    )
                    &&& r.message == selected_message(
                        old(self).sorted_log_groups@,
                        old(self).state.selected as int,
                        k,
                    )
                    &&& final(self).search_term@ == if old(self).is_searching {
                        edited_term(old(self).search_term@, k)
                    } else {
                        old(self).search_term@
                    }
                    &&& final(self).is_searching == if old(self).is_searching {
                        !(k.code == KeyCode::Esc)
                    } else {
                        k.is_press && k.code == KeyCode::Char('/')
                    }
                    &&& (if old(self).is_searching {
                        let term = edited_term(old(self).search_term@, k);
                        &&& term.len() == 0 ==> pair_views(final(self).sorted_log_groups@)
                            == unfiltered(candidate_views(old(self).state.log_groups@))
                        &&& term.len() > 0 ==> pair_views(final(self).sorted_log_groups@)
                            == filter_matches(
                            candidate_views(old(self).state.log_groups@),
                            term,
                        )
                    } else {
                        final(self).sorted_log_groups == old(self).sorted_log_groups
                    })
                    &&& r.prevent_exit == (old(self).is_searching && (k.code == KeyCode::Esc
                        || k.code == KeyCode::Char('q')))
                    &&& r.start_fetch == (!old(self).is_searching && k.is_press && k.code
                        == KeyCode::Char('r') && !(old(self).state.loading_state is Loading))
                },
                InputEvent::Other => *final(self) == *old(self) && r.message is None
                    && !r.start_fetch && !r.prevent_exit,
            },
    {
        let k = match event {
            InputEvent::Key(k) => k,
            InputEvent::Other => {
                return ListEventOutcome { message: None, start_fetch: false, prevent_exit: false
                };
            },
        };
        let mut message: Option<LogGroupSelectionOutboundMessage> = None;
        if k.is_press {
            match k.code {
                KeyCode::Down => self.scroll_down(),
                KeyCode::Up => self.scroll_up(),
                KeyCode::Enter => {
                    if self.state.selected < self.sorted_log_groups.len() {
                        message = Some(
                            LogGroupSelectionOutboundMessage::SelectedGroup(
                                self.sorted_log_groups[self.state.selected].0.clone(),
                            ),
                        );
                    }
                },
                _ => {},
            }
        }
        if self.is_searching {
            match k.code {
                KeyCode::Esc => {
                    self.is_searching = false;
                    self.search_term = Vec::new();
                },
                KeyCode::Backspace => {
                    if self.search_term.len() > 0 {
                        self.search_term.pop();
                    }
                },
                KeyCode::Char(c) => self.search_term.push(c),
                _ => {},
            }
            self.apply_search();
            let prevent_exit = match k.code {
                KeyCode::Esc => true,
                KeyCode::Char(c) => c == 'q',
                _ => false,
            };
            return ListEventOutcome { message, start_fetch: false, prevent_exit };
        }
        let mut start_fetch = false;
        if k.is_press {
            match k.code {
                KeyCode::Char(c) => {
                    if c == '/' {
                        self.is_searching = true;
                    } else if c == 'j' {
                        self.scroll_down();
                    } else if c == 'k' {
                        self.scroll_up();
                    } else if c == 'r' {
                        if !self.state.loading_state.is_loading() {
                            start_fetch = true;
                        }
                    }
                },
                _ => {},
            }
        }
        ListEventOutcome { message, start_fetch, prevent_exit: false }
    }
}

} // verus!
