//! The focus-target state machine's state, and the derived active context.
//!
//! Exactly one `FocusTarget` is active at a time; the active input context is
//! derived from it, shadowed unconditionally by an open modal and locally by
//! a component-reported sub-focus.

use vstd::prelude::*;
use crate::context::ContextId;

verus! {

/// The coarse-grained UI region that owns keyboard focus at the application
/// level.  `App` is the transient initial state before the main view mounts.
#[derive(Debug, Clone, Copy, PartialEq, Eq, Structural)]
pub enum FocusTarget {
    App,
    Table,
    TableHeaders,
    SidebarProjects,
    SidebarTags,
}

/// The direct, total mapping from a focus target to its input context.
pub open spec fn focus_context(f: FocusTarget) -> ContextId {
    match f {
        FocusTarget::App => ContextId::Global,
        FocusTarget::Table => ContextId::Table,
        FocusTarget::TableHeaders => ContextId::TableHeaders,
        FocusTarget::SidebarProjects => ContextId::SidebarProjects,
        FocusTarget::SidebarTags => ContextId::SidebarTags,
    }
}

/// Whether a focus target is one of the two sidebar regions.
pub open spec fn is_sidebar_target(f: FocusTarget) -> bool {
    f == FocusTarget::SidebarProjects || f == FocusTarget::SidebarTags
}

/// The context that keymap resolution uses: an open modal shadows everything;
/// otherwise a sub-focus reported by the table component overrides the coarse
/// `Table` context; otherwise the focus target maps directly.
pub open spec fn active_context_spec(
    modal_open: bool,
    focus: FocusTarget,
    table_sub_focus: Option<ContextId>,
) -> ContextId {
    if modal_open {
        ContextId::Modal
    } else if focus == FocusTarget::Table && table_sub_focus is Some {
        table_sub_focus->0
    } else {
        focus_context(focus)
    }
}

impl FocusTarget {
    /// The input context this focus target directly implies.
    pub fn to_context(&self) -> (r: ContextId)
        ensures
            r == focus_context(*self),
    {
        match self {
            Self::App => ContextId::Global,
            Self::Table => ContextId::Table,
            Self::TableHeaders => ContextId::TableHeaders,
            Self::SidebarProjects => ContextId::SidebarProjects,
            Self::SidebarTags => ContextId::SidebarTags,
        }
    }

    /// True only for the two sidebar regions.
    pub fn is_sidebar(&self) -> (r: bool)
        ensures
            r == is_sidebar_target(*self),
    {
        matches!(self, Self::SidebarProjects | Self::SidebarTags)
    }
}

impl Default for FocusTarget {
    /// The pre-focus initial state.
    fn default() -> (r: Self)
        ensures
            r == FocusTarget::App,
    {
        Self::App
    }
}

/// Modal shadow: with a modal open, the active context is `Modal`, whatever
/// the focus target and whatever sub-focus the table reports.
pub proof fn lemma_modal_shadow(focus: FocusTarget, table_sub_focus: Option<ContextId>)
    ensures
        active_context_spec(true, focus, table_sub_focus) == ContextId::Modal,
{
}

} // verus!
