//! The context vocabulary: logical input scopes that routing rules are
//! keyed on.
//!
//! `Global` is special: its bindings apply everywhere when no more specific
//! context claims the chord.

use vstd::prelude::*;
use crate::text::str_eq;

verus! {

/// A logical input scope, narrower than "whole application".
#[derive(Debug, Clone, Copy, PartialEq, Eq, Hash, Structural)]
pub enum ContextId {
    Global,
    Table,
    TableHeaders,
    SidebarProjects,
    SidebarTags,
    Modal,
    FilterBar,
    TextInput,
}

/// The stable string identifier of a context.
pub open spec fn context_name(c: ContextId) -> Seq<char> {
    match c {
        ContextId::Global => "Global"@,
        ContextId::Table => "Table"@,
        ContextId::TableHeaders => "TableHeaders"@,
        ContextId::SidebarProjects => "SidebarProjects"@,
        ContextId::SidebarTags => "SidebarTags"@,
        ContextId::Modal => "Modal"@,
        ContextId::FilterBar => "FilterBar"@,
        ContextId::TextInput => "TextInput"@,
    }
}

/// The context a string denotes, in either its lowercase or its canonical
/// spelling, if any.
pub open spec fn context_from_name(s: Seq<char>) -> Option<ContextId> {
    if s == "global"@ || s == "Global"@ {
        Some(ContextId::Global)
    } else if s == "table"@ || s == "Table"@ {
        Some(ContextId::Table)
    } else if s == "tableheaders"@ || s == "TableHeaders"@ {
        Some(ContextId::TableHeaders)
    } else if s == "sidebarprojects"@ || s == "SidebarProjects"@ {
        Some(ContextId::SidebarProjects)
    } else if s == "sidebartags"@ || s == "SidebarTags"@ {
        Some(ContextId::SidebarTags)
    } else if s == "modal"@ || s == "Modal"@ {
        Some(ContextId::Modal)
    } else if s == "filterbar"@ || s == "FilterBar"@ {
        Some(ContextId::FilterBar)
    } else if s == "textinput"@ || s == "TextInput"@ {
        Some(ContextId::TextInput)
    } else {
        None
    }
}

impl ContextId {
    /// Parses a context name in lowercase or canonical spelling.
    pub fn from_str(s: &str) -> (r: Option<Self>)
        ensures
            r == context_from_name(s@),
    {
        if str_eq(s, "global") || str_eq(s, "Global") {
            Some(Self::Global)
        } else if str_eq(s, "table") || str_eq(s, "Table") {
            Some(Self::Table)
        } else if str_eq(s, "tableheaders") || str_eq(s, "TableHeaders") {
            Some(Self::TableHeaders)
        } else if str_eq(s, "sidebarprojects") || str_eq(s, "SidebarProjects") {
            Some(Self::SidebarProjects)
        } else if str_eq(s, "sidebartags") || str_eq(s, "SidebarTags") {
            Some(Self::SidebarTags)
        } else if str_eq(s, "modal") || str_eq(s, "Modal") {
            Some(Self::Modal)
        } else if str_eq(s, "filterbar") || str_eq(s, "FilterBar") {
            Some(Self::FilterBar)
        } else if str_eq(s, "textinput") || str_eq(s, "TextInput") {
            Some(Self::TextInput)
        } else {
            None
        }
    }

    /// The stable string identifier of this context.
    pub fn as_str(&self) -> (r: &'static str)
        ensures
            r@ == context_name(*self),
    {
        match self {
            Self::Global => "Global",
            Self::Table => "Table",
            Self::TableHeaders => "TableHeaders",
            Self::SidebarProjects => "SidebarProjects",
            Self::SidebarTags => "SidebarTags",
            Self::Modal => "Modal",
            Self::FilterBar => "FilterBar",
            Self::TextInput => "TextInput",
        }
    }
}

} // verus!
