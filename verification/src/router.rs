//! The root router: turns one key-down event into at most one command for
//! exactly one owning component.
//!
//! On each event the router derives the active context, resolves the chord
//! through the keymap stack, applies the modal input-capture filter, handles
//! the focus-transfer commands that need the platform's cursor-focus API,
//! and routes everything else through the dispatch table.

use vstd::prelude::*;
use crate::active_context::{FocusTarget, active_context_spec, is_sidebar_target};
use crate::chord::{KeyChord, Mods, live_key_of};
use crate::command::Command;
use crate::context::ContextId;
use crate::keymap::{KeymapLayer, KeymapStack, stack_resolve_spec};

verus! {

/// The commands an open modal lets through; every other command is
/// swallowed while a modal is open.
pub open spec fn modal_allows(c: Command) -> bool {
    ||| c == Command::CloseModal
    ||| c == Command::SaveModal
    ||| c == Command::Sync
    ||| c == Command::ModalScrollUp
    ||| c == Command::ModalScrollDown
}

/// What the router decided about one key-down event.
#[derive(Debug, Clone, Copy, PartialEq, Eq, Structural)]
pub enum KeyRouting {
    /// The key did not parse, or no binding matched: a silent no-op.
    NoMatch,
    /// A modal is open and the command is not on its whitelist: swallowed.
    Suppressed(Command),
    /// Move platform text-cursor focus into the search input.
    FocusSearch { from_headers: bool },
    /// Move platform focus onto the table headers.
    FocusTableHeaders { from_context: ContextId },
    /// Move platform focus back onto the table.
    FocusTable { from_context: ContextId },
    /// Move the filter bar's internal focus forward or backward.
    FilterFocusMove { forward: bool },
    /// Hand the command to the dispatch table.
    Dispatch(Command),
}

/// Where the dispatch table sends a command, and what the root itself does.
#[derive(Debug, Clone, Copy, PartialEq, Eq, Structural)]
pub enum DispatchAction {
    /// The root starts a sync.
    Sync,
    /// The focus target changed; the sidebar re-anchors to match it.
    FocusChanged,
    /// Forward the command to the sidebar component.
    Sidebar(Command),
    /// Forward the command to the table component.
    Table(Command),
    /// The root opens the detail modal for the selected task.
    OpenTaskDetail,
    /// The root closes the modal.
    CloseModal,
    /// The root saves and closes the modal.
    SaveModal,
    /// Scroll the modal by the given step.
    ModalScroll(i32),
    /// The root clears every filter.
    ClearAllFilters,
    /// The root clears the project filter.
    ClearProjectFilter,
    /// The root clears the tag filter.
    ClearTagFilter,
    /// The root clears the search text and resets the filter dropdowns.
    ClearSearchAndDropdowns,
    /// Nobody recognized the command: a no-op.
    NotConsumed,
}

/// Whether a dispatch outcome counts as consumed.
pub open spec fn action_consumed(a: DispatchAction) -> bool {
    a != DispatchAction::NotConsumed
}

impl DispatchAction {
    /// Whether this outcome counts as consumed: everything except
    /// `NotConsumed`.
    pub fn consumed(&self) -> (r: bool)
        ensures
            r == action_consumed(*self),
    {
        !matches!(self, DispatchAction::NotConsumed)
    }
}

/// The focus target after the dispatch table handles a command: the two
/// toggle commands cycle between the table and the sidebar sections, the two
/// direct commands jump to a sidebar section, and everything else leaves
/// focus alone.
pub open spec fn focus_after_dispatch(cmd: Command, f: FocusTarget) -> FocusTarget {
    match cmd {
        Command::FocusTable => match f {
            FocusTarget::Table => FocusTarget::SidebarProjects,
            FocusTarget::SidebarProjects => FocusTarget::SidebarTags,
            _ => FocusTarget::Table,
        },
        Command::FocusSidebar => match f {
            FocusTarget::Table => FocusTarget::SidebarTags,
            FocusTarget::SidebarTags => FocusTarget::SidebarProjects,
            _ => FocusTarget::Table,
        },
        Command::FocusSidebarProjects => FocusTarget::SidebarProjects,
        Command::FocusSidebarTags => FocusTarget::SidebarTags,
        _ => f,
    }
}

/// The pure dispatch table: which target a command goes to, given who owns
/// focus.  Navigation commands go to the sidebar when a sidebar region owns
/// focus and to the table otherwise; modal and filter commands are the
/// root's own; anything unrecognized is not consumed.
pub open spec fn dispatch_action_spec(cmd: Command, f: FocusTarget) -> DispatchAction {
    match cmd {
        Command::Sync => DispatchAction::Sync,
        Command::FocusTable | Command::FocusSidebar | Command::FocusSidebarProjects
            | Command::FocusSidebarTags => DispatchAction::FocusChanged,
        Command::SelectNextRow | Command::SelectPrevRow | Command::SelectFirstRow
            | Command::SelectLastRow => if is_sidebar_target(f) {
            DispatchAction::Sidebar(cmd)
        } else {
            DispatchAction::Table(cmd)
        },
        Command::OpenSelectedTask => if is_sidebar_target(f) {
            DispatchAction::Sidebar(cmd)
        } else {
            DispatchAction::OpenTaskDetail
        },
        Command::CloseModal => DispatchAction::CloseModal,
        Command::SaveModal => DispatchAction::SaveModal,
        Command::ModalScrollUp => DispatchAction::ModalScroll(-1i32),
        Command::ModalScrollDown => DispatchAction::ModalScroll(1i32),
        Command::ExpandProject | Command::CollapseProject => if is_sidebar_target(f) {
            DispatchAction::Sidebar(cmd)
        } else {
            DispatchAction::Table(cmd)
        },
        Command::NextPage | Command::PrevPage | Command::ClearSelection => DispatchAction::Table(
            cmd,
        ),
        Command::ToggleDropdown | Command::SelectNextOption | Command::SelectPrevOption
            | Command::BlurInput => DispatchAction::Table(cmd),
        Command::ClearAllFilters => DispatchAction::ClearAllFilters,
        Command::ClearProjectFilter => DispatchAction::ClearProjectFilter,
        Command::ClearTagFilter => DispatchAction::ClearTagFilter,
        Command::ClearSearchAndDropdowns => DispatchAction::ClearSearchAndDropdowns,
        Command::HeaderMoveNext | Command::HeaderMovePrev | Command::HeaderCycleSortOrder
            => DispatchAction::Table(cmd),
        _ => DispatchAction::NotConsumed,
    }
}

/// What the router decides for one key event, given its state and the
/// sub-focus the table component reports.
pub open spec fn key_routing_spec(
    layers: Seq<Map<(ContextId, KeyChord), Command>>,
    modal_open: bool,
    focus: FocusTarget,
    table_sub_focus: Option<ContextId>,
    key_str: Seq<char>,
    mods: Mods,
) -> KeyRouting {
    match live_key_of(key_str) {
        None => KeyRouting::NoMatch,
        Some(key) => {
            let chord = KeyChord { key, mods };
            let context = active_context_spec(modal_open, focus, table_sub_focus);
            match stack_resolve_spec(layers, context, chord) {
                None => KeyRouting::NoMatch,
                Some(cmd) => if modal_open && !modal_allows(cmd) {
                    KeyRouting::Suppressed(cmd)
                } else {
                    match cmd {
                        Command::FocusSearch => KeyRouting::FocusSearch {
                            from_headers: focus == FocusTarget::TableHeaders,
                        },
                        Command::FocusTableHeaders => KeyRouting::FocusTableHeaders {
                            from_context: context,
                        },
                        Command::FocusTable => KeyRouting::FocusTable { from_context: context },
                        Command::FocusFilterNext => KeyRouting::FilterFocusMove { forward: true },
                        Command::FocusFilterPrev => KeyRouting::FilterFocusMove { forward: false },
                        _ => KeyRouting::Dispatch(cmd),
                    }
                },
            }
        },
    }
}

/// The focus target after the router's own handling of one key event: the
/// three platform focus-transfer commands move it, everything else leaves it
/// to the dispatch table.
pub open spec fn focus_after_key(r: KeyRouting, f: FocusTarget) -> FocusTarget {
    match r {
        KeyRouting::FocusSearch { .. } => FocusTarget::Table,
        KeyRouting::FocusTableHeaders { .. } => FocusTarget::TableHeaders,
        KeyRouting::FocusTable { .. } => FocusTarget::Table,
        _ => f,
    }
}

/// The top-level orchestrator: owns the keymap stack, the focus target, and
/// the modal-open flag, and decides the route of every key event.
#[derive(Debug)]
pub struct Router {
    keymap: KeymapStack,
    focus_target: FocusTarget,
    modal_open: bool,
    focus_before_modal: FocusTarget,
}

impl Router {
    /// The rule tables currently on the stack, bottom to top.
    pub closed spec fn layers(&self) -> Seq<Map<(ContextId, KeyChord), Command>> {
        self.keymap@
    }

    /// The focus target the router currently tracks.
    pub closed spec fn focus(&self) -> FocusTarget {
        self.focus_target
    }

    /// Whether a modal is currently open.
    pub closed spec fn modal(&self) -> bool {
        self.modal_open
    }

    /// The focus target saved when the modal opened, restored when it
    /// closes.
    pub closed spec fn saved_focus(&self) -> FocusTarget {
        self.focus_before_modal
    }

    /// A router over the given stack, in the pre-focus initial state with no
    /// modal open.
    pub fn new(keymap: KeymapStack) -> (r: Self)
        ensures
            r.layers() == keymap@,
            r.focus() == FocusTarget::App,
            !r.modal(),
            r.saved_focus() == FocusTarget::Table,
    {
        Router {
            keymap,
            focus_target: FocusTarget::App,
            modal_open: false,
            focus_before_modal: FocusTarget::Table,
        }
    }

    /// The current focus target.
    pub fn focus_target(&self) -> (r: FocusTarget)
        ensures
            r == self.focus(),
    {
        self.focus_target
    }

    /// Records a focus change coming from outside the keymap, e.g. a pointer
    /// click.
    pub fn set_focus_target(&mut self, f: FocusTarget)
        ensures
            final(self).focus() == f,
            final(self).layers() == old(self).layers(),
            final(self).modal() == old(self).modal(),
            final(self).saved_focus() == old(self).saved_focus(),
    {
        self.focus_target = f;
    }

    /// Whether a modal is open.
    pub fn modal_open(&self) -> (r: bool)
        ensures
            r == self.modal(),
    {
        self.modal_open
    }

    /// Records that a modal opened or closed.  Opening saves the current
    /// focus target; closing restores the saved one.
    pub fn set_modal_open(&mut self, open: bool)
        ensures
            final(self).modal() == open,
            final(self).layers() == old(self).layers(),
            final(self).focus() == (if old(self).modal() && !open {
                old(self).saved_focus()
            } else {
                old(self).focus()
            }),
            final(self).saved_focus() == (if !old(self).modal() && open {
                old(self).focus()
            } else {
                old(self).saved_focus()
            }),
    {
        if open && !self.modal_open {
            self.focus_before_modal = self.focus_target;
        }
        if !open && self.modal_open {
            self.focus_target = self.focus_before_modal;
        }
        self.modal_open = open;
    }

    /// Pushes a keymap layer; it gets the highest priority.
    pub fn push_layer(&mut self, layer: KeymapLayer)
        ensures
            final(self).layers() == old(self).layers().push(layer@),
            final(self).focus() == old(self).focus(),
            final(self).modal() == old(self).modal(),
            final(self).saved_focus() == old(self).saved_focus(),
    {
        self.keymap.push_layer(layer);
    }

    /// Pops the most recently pushed keymap layer, if any.
    pub fn pop_layer(&mut self) -> (r: Option<KeymapLayer>)
        ensures
            r is Some ==> old(self).layers().len() > 0 && r->0@ == old(self).layers().last()
                && final(self).layers() == old(self).layers().drop_last(),
            r is None ==> old(self).layers().len() == 0 && final(self).layers() == old(
                self,
            ).layers(),
            final(self).focus() == old(self).focus(),
            final(self).modal() == old(self).modal(),
            final(self).saved_focus() == old(self).saved_focus(),
    {
        self.keymap.pop_layer()
    }

    /// The context keymap resolution uses right now: an open modal shadows
    /// everything; otherwise a sub-focus reported by the table overrides the
    /// coarse `Table` context; otherwise the focus target maps directly.
    pub fn active_context(&self, table_sub_focus: Option<ContextId>) -> (r: ContextId)
        ensures
            r == active_context_spec(self.modal(), self.focus(), table_sub_focus),
    {
        if self.modal_open {
            return ContextId::Modal;
        }
        if matches!(self.focus_target, FocusTarget::Table) {
            if let Some(context) = table_sub_focus {
                return context;
            }
        }
        self.focus_target.to_context()
    }

    /// Resolves a `(context, chord)` pair through the current stack.
    pub fn resolve(&self, context: ContextId, chord: &KeyChord) -> (r: Option<Command>)
        ensures
            r == stack_resolve_spec(self.layers(), context, *chord),
    {
        self.keymap.resolve(context, chord)
    }

    /// Routes one key-down event.  An unparseable key and an unbound chord
    /// are silent no-ops; with a modal open, commands outside the modal
    /// whitelist are swallowed; the platform focus-transfer commands update
    /// the focus target here; everything else is left for [`Self::dispatch`].
    pub fn handle_key(
        &mut self,
        key_str: &str,
        mods: Mods,
        table_sub_focus: Option<ContextId>,
    ) -> (r: KeyRouting)
        ensures
            r == key_routing_spec(
                old(self).layers(),
                old(self).modal(),
                old(self).focus(),
                table_sub_focus,
                key_str@,
                mods,
            ),
            final(self).focus() == focus_after_key(r, old(self).focus()),
            final(self).layers() == old(self).layers(),
            final(self).modal() == old(self).modal(),
            final(self).saved_focus() == old(self).saved_focus(),
    {
        let chord = match KeyChord::from_live_event(key_str, mods) {
            Some(c) => c,
            None => {
                return KeyRouting::NoMatch;
            },
        };
        let context = self.active_context(table_sub_focus);
        let command = match self.keymap.resolve(context, &chord) {
            Some(c) => c,
            None => {
                return KeyRouting::NoMatch;
            },
        };
        if self.modal_open && !modal_allows_exec(command) {
            return KeyRouting::Suppressed(command);
        }
        match command {
            Command::FocusSearch => {
                let from_headers = matches!(self.focus_target, FocusTarget::TableHeaders);
                self.focus_target = FocusTarget::Table;
                KeyRouting::FocusSearch { from_headers }
            },
            Command::FocusTableHeaders => {
                self.focus_target = FocusTarget::TableHeaders;
                KeyRouting::FocusTableHeaders { from_context: context }
            },
            Command::FocusTable => {
                self.focus_target = FocusTarget::Table;
                KeyRouting::FocusTable { from_context: context }
            },
            Command::FocusFilterNext => KeyRouting::FilterFocusMove { forward: true },
            Command::FocusFilterPrev => KeyRouting::FilterFocusMove { forward: false },
            _ => KeyRouting::Dispatch(command),
        }
    }

    /// The dispatch table: hands a resolved command to its one target and
    /// applies the focus toggles.  The returned action says what the caller
    /// performs; `NotConsumed` means nobody recognized the command.
    pub fn dispatch(&mut self, command: Command) -> (r: DispatchAction)
        ensures
            r == dispatch_action_spec(command, old(self).focus()),
            final(self).focus() == focus_after_dispatch(command, old(self).focus()),
            final(self).layers() == old(self).layers(),
            final(self).modal() == old(self).modal(),
            final(self).saved_focus() == old(self).saved_focus(),
    {
        match command {
            Command::Sync => DispatchAction::Sync,
            Command::FocusTable => {
                self.focus_target = match self.focus_target {
                    FocusTarget::Table => FocusTarget::SidebarProjects,
                    FocusTarget::SidebarProjects => FocusTarget::SidebarTags,
                    _ => FocusTarget::Table,
                };
                DispatchAction::FocusChanged
            },
            Command::FocusSidebar => {
                self.focus_target = match self.focus_target {
                    FocusTarget::Table => FocusTarget::SidebarTags,
                    FocusTarget::SidebarTags => FocusTarget::SidebarProjects,
                    _ => FocusTarget::Table,
                };
                DispatchAction::FocusChanged
            },
            Command::FocusSidebarProjects => {
                self.focus_target = FocusTarget::SidebarProjects;
                DispatchAction::FocusChanged
            },
            Command::FocusSidebarTags => {
                self.focus_target = FocusTarget::SidebarTags;
                DispatchAction::FocusChanged
            },
            Command::SelectNextRow | Command::SelectPrevRow | Command::SelectFirstRow
                | Command::SelectLastRow => {
                if self.focus_target.is_sidebar() {
                    DispatchAction::Sidebar(command)
                } else {
                    DispatchAction::Table(command)
                }
            },
            Command::OpenSelectedTask => {
                if self.focus_target.is_sidebar() {
                    DispatchAction::Sidebar(command)
                } else {
                    DispatchAction::OpenTaskDetail
                }
            },
            Command::CloseModal => DispatchAction::CloseModal,
            Command::SaveModal => DispatchAction::SaveModal,
            // The scroll step is symmetric by design.
            Command::ModalScrollUp => DispatchAction::ModalScroll(-1),
            Command::ModalScrollDown => DispatchAction::ModalScroll(1),
            Command::ExpandProject | Command::CollapseProject => {
                if self.focus_target.is_sidebar() {
                    DispatchAction::Sidebar(command)
                } else {
                    DispatchAction::Table(command)
                }
            },
            Command::NextPage | Command::PrevPage | Command::ClearSelection => {
                DispatchAction::Table(command)
            },
            Command::ToggleDropdown | Command::SelectNextOption | Command::SelectPrevOption
                | Command::BlurInput => DispatchAction::Table(command),
            Command::ClearAllFilters => DispatchAction::ClearAllFilters,
            Command::ClearProjectFilter => DispatchAction::ClearProjectFilter,
            Command::ClearTagFilter => DispatchAction::ClearTagFilter,
            Command::ClearSearchAndDropdowns => DispatchAction::ClearSearchAndDropdowns,
            Command::HeaderMoveNext | Command::HeaderMovePrev | Command::HeaderCycleSortOrder => {
                DispatchAction::Table(command)
            },
            _ => DispatchAction::NotConsumed,
        }
    }
}

/// Whether an open modal lets this command through.
pub fn modal_allows_exec(c: Command) -> (r: bool)
    ensures
        r == modal_allows(c),
{
    matches!(
        c,
        Command::CloseModal | Command::SaveModal | Command::Sync | Command::ModalScrollUp
            | Command::ModalScrollDown
    )
}

/// The pre-focus initial state is transient: once the focus target has left
/// `App`, neither the router's own focus handling nor the dispatch table
/// ever brings it back.
pub proof fn lemma_app_focus_not_reentered(r: KeyRouting, cmd: Command, f: FocusTarget)
    requires
        f != FocusTarget::App,
    ensures
        focus_after_key(r, f) != FocusTarget::App,
        focus_after_dispatch(cmd, f) != FocusTarget::App,
{
}

/// Modal input capture: while a modal is open, every key event either misses
/// the keymap, or is suppressed, or carries a whitelisted command — no other
/// command can reach a component.
pub proof fn lemma_modal_input_capture(
    layers: Seq<Map<(ContextId, KeyChord), Command>>,
    focus: FocusTarget,
    table_sub_focus: Option<ContextId>,
    key_str: Seq<char>,
    mods: Mods,
)
    ensures
        match key_routing_spec(layers, true, focus, table_sub_focus, key_str, mods) {
            KeyRouting::NoMatch => true,
            KeyRouting::Suppressed(_) => true,
            KeyRouting::Dispatch(cmd) => modal_allows(cmd),
            KeyRouting::FocusSearch { .. } => false,
            KeyRouting::FocusTableHeaders { .. } => false,
            KeyRouting::FocusTable { .. } => false,
            KeyRouting::FilterFocusMove { .. } => false,
        },
{
}

} // verus!
