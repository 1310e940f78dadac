//! The older, coarse key-binding vocabulary kept for compatibility: a small
//! closed set of recognized keystrokes and the per-area actions they map to.

use vstd::prelude::*;
use crate::chord::Mods;
use crate::text::str_eq;

verus! {

/// A recognized keystroke in the legacy vocabulary.
#[derive(Debug, Clone, PartialEq, Eq, Structural)]
pub enum KeyBinding {
    ArrowUp,
    ArrowDown,
    ArrowLeft,
    ArrowRight,
    PageUp,
    PageDown,
    Home,
    End,
    Enter,
    Escape,
    Refresh,
    Focus,
}

/// The legacy binding a raw keystroke denotes: with the platform modifier,
/// only `r`/`f` mean refresh/focus; with any other modifier, nothing; bare
/// named keys map directly.
pub open spec fn key_binding_of(key: Seq<char>, m: Mods) -> Option<KeyBinding> {
    if m.platform {
        if key == "r"@ || key == "R"@ {
            Some(KeyBinding::Refresh)
        } else if key == "f"@ || key == "F"@ {
            Some(KeyBinding::Focus)
        } else {
            None
        }
    } else if m.ctrl || m.alt || m.shift {
        None
    } else if key == "ArrowUp"@ {
        Some(KeyBinding::ArrowUp)
    } else if key == "ArrowDown"@ {
        Some(KeyBinding::ArrowDown)
    } else if key == "ArrowLeft"@ {
        Some(KeyBinding::ArrowLeft)
    } else if key == "ArrowRight"@ {
        Some(KeyBinding::ArrowRight)
    } else if key == "PageUp"@ {
        Some(KeyBinding::PageUp)
    } else if key == "PageDown"@ {
        Some(KeyBinding::PageDown)
    } else if key == "Home"@ {
        Some(KeyBinding::Home)
    } else if key == "End"@ {
        Some(KeyBinding::End)
    } else if key == "Enter"@ {
        Some(KeyBinding::Enter)
    } else if key == "Escape"@ {
        Some(KeyBinding::Escape)
    } else {
        None
    }
}

impl KeyBinding {
    /// Recognizes a raw keystroke given the four modifier flags the platform
    /// reported.
    pub fn from_keystroke(key: &str, modifiers: &Mods) -> (r: Option<Self>)
        ensures
            r == key_binding_of(key@, *modifiers),
    {
        if modifiers.platform {
            return if str_eq(key, "r") || str_eq(key, "R") {
                Some(Self::Refresh)
            } else if str_eq(key, "f") || str_eq(key, "F") {
                Some(Self::Focus)
            } else {
                None
            };
        }
        if modifiers.ctrl || modifiers.alt || modifiers.shift {
            return None;
        }
        if str_eq(key, "ArrowUp") {
            Some(Self::ArrowUp)
        } else if str_eq(key, "ArrowDown") {
            Some(Self::ArrowDown)
        } else if str_eq(key, "ArrowLeft") {
            Some(Self::ArrowLeft)
        } else if str_eq(key, "ArrowRight") {
            Some(Self::ArrowRight)
        } else if str_eq(key, "PageUp") {
            Some(Self::PageUp)
        } else if str_eq(key, "PageDown") {
            Some(Self::PageDown)
        } else if str_eq(key, "Home") {
            Some(Self::Home)
        } else if str_eq(key, "End") {
            Some(Self::End)
        } else if str_eq(key, "Enter") {
            Some(Self::Enter)
        } else if str_eq(key, "Escape") {
            Some(Self::Escape)
        } else {
            None
        }
    }
}

/// A table-area action in the legacy vocabulary.
#[derive(Debug, Clone, PartialEq, Eq, Structural)]
pub enum TableAction {
    SelectNext,
    SelectPrevious,
    NextPage,
    PreviousPage,
    SelectFirst,
    SelectLast,
    ClearSelection,
    ExpandProject,
    CollapseProject,
}

/// The table action a legacy binding maps to, if any.
pub open spec fn table_action_of(b: KeyBinding) -> Option<TableAction> {
    match b {
        KeyBinding::ArrowUp => Some(TableAction::SelectPrevious),
        KeyBinding::ArrowDown => Some(TableAction::SelectNext),
        KeyBinding::PageUp => Some(TableAction::PreviousPage),
        KeyBinding::PageDown => Some(TableAction::NextPage),
        KeyBinding::Home => Some(TableAction::SelectFirst),
        KeyBinding::End => Some(TableAction::SelectLast),
        KeyBinding::Escape => Some(TableAction::ClearSelection),
        KeyBinding::ArrowLeft => Some(TableAction::CollapseProject),
        KeyBinding::ArrowRight => Some(TableAction::ExpandProject),
        _ => None,
    }
}

impl TableAction {
    /// The table action a legacy binding maps to, if any.
    pub fn from_binding(binding: &KeyBinding) -> (r: Option<Self>)
        ensures
            r == table_action_of(*binding),
    {
        match binding {
            KeyBinding::ArrowUp => Some(Self::SelectPrevious),
            KeyBinding::ArrowDown => Some(Self::SelectNext),
            KeyBinding::PageUp => Some(Self::PreviousPage),
            KeyBinding::PageDown => Some(Self::NextPage),
            KeyBinding::Home => Some(Self::SelectFirst),
            KeyBinding::End => Some(Self::SelectLast),
            KeyBinding::Escape => Some(Self::ClearSelection),
            KeyBinding::ArrowLeft => Some(Self::CollapseProject),
            KeyBinding::ArrowRight => Some(Self::ExpandProject),
            _ => None,
        }
    }
}

/// An application-wide action in the legacy vocabulary.
#[derive(Debug, Clone, PartialEq, Eq, Structural)]
pub enum GlobalAction {
    Refresh,
    FocusSearch,
}

/// The global action a legacy binding maps to, if any.
pub open spec fn global_action_of(b: KeyBinding) -> Option<GlobalAction> {
    match b {
        KeyBinding::Refresh => Some(GlobalAction::Refresh),
        KeyBinding::Focus => Some(GlobalAction::FocusSearch),
        _ => None,
    }
}

impl GlobalAction {
    /// The global action a legacy binding maps to, if any.
    pub fn from_binding(binding: &KeyBinding) -> (r: Option<Self>)
        ensures
            r == global_action_of(*binding),
    {
        match binding {
            KeyBinding::Refresh => Some(Self::Refresh),
            KeyBinding::Focus => Some(Self::FocusSearch),
            _ => None,
        }
    }
}

} // verus!
