//! The log viewer: shows one group's retrieved lines in a scrollable table
//! and turns key events into scrolling, refreshes, or leaving the view. The
//! asynchronous fetch itself runs outside; its entry and its outcome are
//! recorded here.

use vstd::prelude::*;

use crate::events::{InputEvent, KeyCode};
use crate::shared::LoadingState;
use crate::table::Table;

verus! {

/// Message the viewer sends its owner.
pub enum LogViewerOutboundMessage {
    ReRender,
    UnselectLogGroup,
    SetLogs(Vec<String>),
}

/// The viewer state the background fetch writes and the render path reads.
pub struct LogViewerState {
    pub log_messages: Vec<String>,
    pub loading_state: LoadingState,
}

impl LogViewerState {
    pub fn new() -> (r: LogViewerState)
        ensures
            r.log_messages@ =~= Seq::<String>::empty(),
            r.loading_state is Loading,
    {
        LogViewerState { log_messages: Vec::new(), loading_state: LoadingState::Loading }
    }

    /// Entry of a fetch: the viewer shows "loading" until an outcome lands.
    pub fn begin_fetch(&mut self)
        ensures
            final(self).loading_state is Loading,
            final(self).log_messages == old(self).log_messages,
    {
        self.loading_state = LoadingState::Loading;
    }

    /// Record the outcome of a finished fetch and say what to tell the
    /// owner: the lines to show on success, or a bare re-render request
    /// with the failure reason kept in the status.
    pub fn on_fetch_outcome(&mut self, outcome: Result<Vec<String>, String>) -> (msg:
        LogViewerOutboundMessage)
        ensures
            final(self).log_messages == old(self).log_messages,
            match outcome {
                Ok(lines) => final(self).loading_state is Loaded && msg
                    == LogViewerOutboundMessage::SetLogs(lines),
                Err(e) => (final(self).loading_state matches LoadingState::Error(r) && r == e)
                    && msg is ReRender,
            },
    {
        match outcome {
            Ok(lines) => {
                self.loading_state = LoadingState::Loaded;
                LogViewerOutboundMessage::SetLogs(lines)
            },
            Err(e) => {
                self.loading_state = LoadingState::Error(e);
                LogViewerOutboundMessage::ReRender
            },
        }
    }
}

/// What one handled event asks the owner to do, besides the mutation of
/// the component itself.
pub struct ViewerEventOutcome {
    pub message: Option<LogViewerOutboundMessage>,
    pub start_fetch: bool,
    pub prevent_exit: bool,
}

/// The scroll offset of the viewer's table after one key event.
pub open spec fn viewer_offset_after(y: int, line_count: nat, k: crate::events::KeyEvent) -> int {
    if k.code == KeyCode::Char('k') || k.code == KeyCode::Up {
        vstd::math::min(y + 1, crate::table::top_offset(line_count))
    } else if k.code == KeyCode::Char('j') || k.code == KeyCode::Down {
        vstd::math::max(y - 1, 0)
    } else if k.code == KeyCode::Char('u') && k.ctrl {
        vstd::math::min(y + 2000, crate::table::top_offset(line_count))
    } else if k.code == KeyCode::Char('d') && k.ctrl {
        vstd::math::max(y - 10, 0)
    } else {
        y
    }
}

/// The render-side log viewer: the selected group's name and the table of
/// lines it draws from.
pub struct LogVieweromponent {
    pub log_group_name: String,
    pub displayed_messages: Vec<String>,
    pub table: Table,
}

impl LogVieweromponent {
    pub fn new() -> (r: LogVieweromponent)
        ensures
            r.log_group_name@ =~= Seq::<char>::empty(),
            r.displayed_messages@ =~= Seq::<String>::empty(),
            r.table.y == 0,
            r.table.data@ =~= Seq::<String>::empty(),
    {
        LogVieweromponent {
            log_group_name: String::new(),
            displayed_messages: Vec::new(),
            table: Table::new(Vec::new()),
        }
    }

    /// Swap in a freshly fetched line list, wholesale.
    pub fn set_logs(&mut self, log_messages: Vec<String>)
        ensures
            final(self).table.data == log_messages,
            final(self).table.y == old(self).table.y,
            final(self).log_group_name == old(self).log_group_name,
            final(self).displayed_messages == old(self).displayed_messages,
    {
        self.table.data = log_messages;
    }

    /// Drop the lines held for a deselected group, both in the shared state
    /// and in the local snapshot.
    pub fn clear_logs(&mut self, state: &mut LogViewerState)
        ensures
            final(state).log_messages@ =~= Seq::<String>::empty(),
            final(state).loading_state == old(state).loading_state,
            final(self).displayed_messages@ =~= Seq::<String>::empty(),
            final(self).log_group_name == old(self).log_group_name,
            final(self).table == old(self).table,
    {
        state.log_messages = Vec::new();
        self.displayed_messages = Vec::new();
    }

    /// Turn one input event into scrolling, a refresh request, or leaving
    /// the view. Escape hands the group back to the list; the refresh key
    /// asks the owner to start a fresh fetch.
    pub fn handle_event(&mut self, event: &InputEvent) -> (r: ViewerEventOutcome)
        ensures
            final(self).log_group_name == old(self).log_group_name,
            final(self).displayed_messages == old(self).displayed_messages,
            final(self).table.data == old(self).table.data,
            match *event {
                InputEvent::Key(k) => {
                    &&& (if k.code == KeyCode::Esc {
                        final(self).table.y == old(self).table.y && r.message == Some(
                            LogViewerOutboundMessage::UnselectLogGroup,
                        ) && r.prevent_exit && !r.start_fetch
                    } else {
                        final(self).table.y as int == viewer_offset_after(
                            old(self).table.y as int,
                            old(self).table.data@.len(),
                            k,
                        ) && r.message is None && !r.prevent_exit && r.start_fetch == (k.code
                            == KeyCode::Char('r'))
                    })
                },
                InputEvent::Other => final(self).table.y == old(self).table.y && r.message is None
                    && !r.start_fetch && !r.prevent_exit,
            },
    {
        let k = match event {
            InputEvent::Key(k) => k,
            InputEvent::Other => {
                return ViewerEventOutcome { message: None, start_fetch: false, prevent_exit: false
                };
            },
        };
        let mut start_fetch = false;
        match k.code {
            KeyCode::Esc => {
                return ViewerEventOutcome {
                    message: Some(LogViewerOutboundMessage::UnselectLogGroup),
                    start_fetch: false,
                    prevent_exit: true,
                };
            },
            KeyCode::Char(c) => {
                if c == 'r' {
                    start_fetch = true;
                } else if c == 'k' {
                    self.table.scroll_up(None);
                } else if c == 'j' {
                    self.table.scroll_down(None);
                } else if c == 'u' && k.ctrl {
                    self.table.scroll_up(Some(2000));
                } else if c == 'd' && k.ctrl {
                    self.table.scroll_down(Some(10));
                }
            },
            KeyCode::Up => self.table.scroll_up(None),
            KeyCode::Down => self.table.scroll_down(None),
            _ => {},
        }
        ViewerEventOutcome { message: None, start_fetch, prevent_exit: false }
    }
}

} // verus!
