//! The command vocabulary: a closed, flat enumeration of abstract user
//! intents, decoupled from any specific key or widget.
//!
//! Commands carry no payload and round-trip through a stable string
//! identifier for introspection and testing.

use vstd::prelude::*;
use crate::text::str_eq;

verus! {

/// An abstract user intent, grouped by area.
#[derive(Debug, Clone, Copy, PartialEq, Eq, Hash, Structural)]
pub enum Command {
    // Navigation
    SelectNextRow,
    SelectPrevRow,
    SelectFirstRow,
    SelectLastRow,
    NextPage,
    PrevPage,
    ClearSelection,
    // Actions
    OpenSelectedTask,
    Sync,
    // Focus
    FocusSearch,
    FocusTable,
    FocusTableHeaders,
    FocusSidebar,
    FocusSidebarProjects,
    FocusSidebarTags,
    BlurInput,
    // Modal
    CloseModal,
    SaveModal,
    ModalScrollUp,
    ModalScrollDown,
    // Filter
    ApplySearch,
    ClearFilters,
    ClearAllFilters,
    ClearProjectFilter,
    ClearTagFilter,
    ClearSearchAndDropdowns,
    FocusFilterNext,
    FocusFilterPrev,
    ToggleDropdown,
    SelectNextOption,
    SelectPrevOption,
    // Projects
    ExpandProject,
    CollapseProject,
    // Table headers
    HeaderMoveNext,
    HeaderMovePrev,
    HeaderCycleSortOrder,
}

/// The stable string identifier of a command.
pub open spec fn command_name(c: Command) -> Seq<char> {
    match c {
        Command::SelectNextRow => "SelectNextRow"@,
        Command::SelectPrevRow => "SelectPrevRow"@,
        Command::SelectFirstRow => "SelectFirstRow"@,
        Command::SelectLastRow => "SelectLastRow"@,
        Command::NextPage => "NextPage"@,
        Command::PrevPage => "PrevPage"@,
        Command::ClearSelection => "ClearSelection"@,
        Command::OpenSelectedTask => "OpenSelectedTask"@,
        Command::Sync => "Sync"@,
        Command::FocusSearch => "FocusSearch"@,
        Command::FocusTable => "FocusTable"@,
        Command::FocusTableHeaders => "FocusTableHeaders"@,
        Command::FocusSidebar => "FocusSidebar"@,
        Command::FocusSidebarProjects => "FocusSidebarProjects"@,
        Command::FocusSidebarTags => "FocusSidebarTags"@,
        Command::BlurInput => "BlurInput"@,
        Command::CloseModal => "CloseModal"@,
        Command::SaveModal => "SaveModal"@,
        Command::ModalScrollUp => "ModalScrollUp"@,
        Command::ModalScrollDown => "ModalScrollDown"@,
        Command::ApplySearch => "ApplySearch"@,
        Command::ClearFilters => "ClearFilters"@,
        Command::ClearAllFilters => "ClearAllFilters"@,
        Command::ClearProjectFilter => "ClearProjectFilter"@,
        Command::ClearTagFilter => "ClearTagFilter"@,
        Command::ClearSearchAndDropdowns => "ClearSearchAndDropdowns"@,
        Command::FocusFilterNext => "FocusFilterNext"@,
        Command::FocusFilterPrev => "FocusFilterPrev"@,
        Command::ToggleDropdown => "ToggleDropdown"@,
        Command::SelectNextOption => "SelectNextOption"@,
        Command::SelectPrevOption => "SelectPrevOption"@,
        Command::ExpandProject => "ExpandProject"@,
        Command::CollapseProject => "CollapseProject"@,
        Command::HeaderMoveNext => "HeaderMoveNext"@,
        Command::HeaderMovePrev => "HeaderMovePrev"@,
        Command::HeaderCycleSortOrder => "HeaderCycleSortOrder"@,
    }
}

/// The command a string identifier denotes, if any.
pub open spec fn command_from_name(s: Seq<char>) -> Option<Command> {
    if s == "SelectNextRow"@ {
        Some(Command::SelectNextRow)
    } else if s == "SelectPrevRow"@ {
        Some(Command::SelectPrevRow)
    } else if s == "SelectFirstRow"@ {
        Some(Command::SelectFirstRow)
    } else if s == "SelectLastRow"@ {
        Some(Command::SelectLastRow)
    } else if s == "NextPage"@ {
        Some(Command::NextPage)
    } else if s == "PrevPage"@ {
        Some(Command::PrevPage)
    } else if s == "ClearSelection"@ {
        Some(Command::ClearSelection)
    } else if s == "OpenSelectedTask"@ {
        Some(Command::OpenSelectedTask)
    } else if s == "Sync"@ {
        Some(Command::Sync)
    } else if s == "FocusSearch"@ {
        Some(Command::FocusSearch)
    } else if s == "FocusTable"@ {
        Some(Command::FocusTable)
    } else if s == "FocusTableHeaders"@ {
        Some(Command::FocusTableHeaders)
    } else if s == "FocusSidebar"@ {
        Some(Command::FocusSidebar)
    } else if s == "FocusSidebarProjects"@ {
        Some(Command::FocusSidebarProjects)
    } else if s == "FocusSidebarTags"@ {
        Some(Command::FocusSidebarTags)
    } else if s == "BlurInput"@ {
        Some(Command::BlurInput)
    } else if s == "CloseModal"@ {
        Some(Command::CloseModal)
    } else if s == "SaveModal"@ {
        Some(Command::SaveModal)
    } else if s == "ModalScrollUp"@ {
        Some(Command::ModalScrollUp)
    } else if s == "ModalScrollDown"@ {
        Some(Command::ModalScrollDown)
    } else if s == "ApplySearch"@ {
        Some(Command::ApplySearch)
    } else if s == "ClearFilters"@ {
        Some(Command::ClearFilters)
    } else if s == "ClearAllFilters"@ {
        Some(Command::ClearAllFilters)
    } else if s == "ClearProjectFilter"@ {
        Some(Command::ClearProjectFilter)
    } else if s == "ClearTagFilter"@ {
        Some(Command::ClearTagFilter)
    } else if s == "ClearSearchAndDropdowns"@ {
        Some(Command::ClearSearchAndDropdowns)
    } else if s == "FocusFilterNext"@ {
        Some(Command::FocusFilterNext)
    } else if s == "FocusFilterPrev"@ {
        Some(Command::FocusFilterPrev)
    } else if s == "ToggleDropdown"@ {
        Some(Command::ToggleDropdown)
    } else if s == "SelectNextOption"@ {
        Some(Command::SelectNextOption)
    } else if s == "SelectPrevOption"@ {
        Some(Command::SelectPrevOption)
    } else if s == "ExpandProject"@ {
        Some(Command::ExpandProject)
    } else if s == "CollapseProject"@ {
        Some(Command::CollapseProject)
    } else if s == "HeaderMoveNext"@ {
        Some(Command::HeaderMoveNext)
    } else if s == "HeaderMovePrev"@ {
        Some(Command::HeaderMovePrev)
    } else if s == "HeaderCycleSortOrder"@ {
        Some(Command::HeaderCycleSortOrder)
    } else {
        None
    }
}

impl Command {
    /// Parses a stable string identifier back into a command.
    pub fn from_str(s: &str) -> (r: Option<Self>)
        ensures
            r == command_from_name(s@),
    {
        if str_eq(s, "SelectNextRow") {
            Some(Self::SelectNextRow)
        } else if str_eq(s, "SelectPrevRow") {
            Some(Self::SelectPrevRow)
        } else if str_eq(s, "SelectFirstRow") {
            Some(Self::SelectFirstRow)
        } else if str_eq(s, "SelectLastRow") {
            Some(Self::SelectLastRow)
        } else if str_eq(s, "NextPage") {
            Some(Self::NextPage)
        } else if str_eq(s, "PrevPage") {
            Some(Self::PrevPage)
        } else if str_eq(s, "ClearSelection") {
            Some(Self::ClearSelection)
        } else if str_eq(s, "OpenSelectedTask") {
            Some(Self::OpenSelectedTask)
        } else if str_eq(s, "Sync") {
            Some(Self::Sync)
        } else if str_eq(s, "FocusSearch") {
            Some(Self::FocusSearch)
        } else if str_eq(s, "FocusTable") {
            Some(Self::FocusTable)
        } else if str_eq(s, "FocusTableHeaders") {
            Some(Self::FocusTableHeaders)
        } else if str_eq(s, "FocusSidebar") {
            Some(Self::FocusSidebar)
        } else if str_eq(s, "FocusSidebarProjects") {
            Some(Self::FocusSidebarProjects)
        } else if str_eq(s, "FocusSidebarTags") {
            Some(Self::FocusSidebarTags)
        } else if str_eq(s, "BlurInput") {
            Some(Self::BlurInput)
        } else if str_eq(s, "CloseModal") {
            Some(Self::CloseModal)
        } else if str_eq(s, "SaveModal") {
            Some(Self::SaveModal)
        } else if str_eq(s, "ModalScrollUp") {
            Some(Self::ModalScrollUp)
        } else if str_eq(s, "ModalScrollDown") {
            Some(Self::ModalScrollDown)
        } else if str_eq(s, "ApplySearch") {
            Some(Self::ApplySearch)
        } else if str_eq(s, "ClearFilters") {
            Some(Self::ClearFilters)
        } else if str_eq(s, "ClearAllFilters") {
            Some(Self::ClearAllFilters)
        } else if str_eq(s, "ClearProjectFilter") {
            Some(Self::ClearProjectFilter)
        } else if str_eq(s, "ClearTagFilter") {
            Some(Self::ClearTagFilter)
        } else if str_eq(s, "ClearSearchAndDropdowns") {
            Some(Self::ClearSearchAndDropdowns)
        } else if str_eq(s, "FocusFilterNext") {
            Some(Self::FocusFilterNext)
        } else if str_eq(s, "FocusFilterPrev") {
            Some(Self::FocusFilterPrev)
        } else if str_eq(s, "ToggleDropdown") {
            Some(Self::ToggleDropdown)
        } else if str_eq(s, "SelectNextOption") {
            Some(Self::SelectNextOption)
        } else if str_eq(s, "SelectPrevOption") {
            Some(Self::SelectPrevOption)
        } else if str_eq(s, "ExpandProject") {
            Some(Self::ExpandProject)
        } else if str_eq(s, "CollapseProject") {
            Some(Self::CollapseProject)
        } else if str_eq(s, "HeaderMoveNext") {
            Some(Self::HeaderMoveNext)
        } else if str_eq(s, "HeaderMovePrev") {
            Some(Self::HeaderMovePrev)
        } else if str_eq(s, "HeaderCycleSortOrder") {
            Some(Self::HeaderCycleSortOrder)
        } else {
            None
        }
    }

    /// The stable string identifier of this command.
    pub fn as_str(&self) -> (r: &'static str)
        ensures
            r@ == command_name(*self),
    {
        match self {
            Self::SelectNextRow => "SelectNextRow",
            Self::SelectPrevRow => "SelectPrevRow",
            Self::SelectFirstRow => "SelectFirstRow",
            Self::SelectLastRow => "SelectLastRow",
            Self::NextPage => "NextPage",
            Self::PrevPage => "PrevPage",
            Self::ClearSelection => "ClearSelection",
            Self::OpenSelectedTask => "OpenSelectedTask",
            Self::Sync => "Sync",
            Self::FocusSearch => "FocusSearch",
            Self::FocusTable => "FocusTable",
            Self::FocusTableHeaders => "FocusTableHeaders",
            Self::FocusSidebar => "FocusSidebar",
            Self::FocusSidebarProjects => "FocusSidebarProjects",
            Self::FocusSidebarTags => "FocusSidebarTags",
            Self::BlurInput => "BlurInput",
            Self::CloseModal => "CloseModal",
            Self::SaveModal => "SaveModal",
            Self::ModalScrollUp => "ModalScrollUp",
            Self::ModalScrollDown => "ModalScrollDown",
            Self::ApplySearch => "ApplySearch",
            Self::ClearFilters => "ClearFilters",
            Self::ClearAllFilters => "ClearAllFilters",
            Self::ClearProjectFilter => "ClearProjectFilter",
            Self::ClearTagFilter => "ClearTagFilter",
            Self::ClearSearchAndDropdowns => "ClearSearchAndDropdowns",
            Self::FocusFilterNext => "FocusFilterNext",
            Self::FocusFilterPrev => "FocusFilterPrev",
            Self::ToggleDropdown => "ToggleDropdown",
            Self::SelectNextOption => "SelectNextOption",
            Self::SelectPrevOption => "SelectPrevOption",
            Self::ExpandProject => "ExpandProject",
            Self::CollapseProject => "CollapseProject",
            Self::HeaderMoveNext => "HeaderMoveNext",
            Self::HeaderMovePrev => "HeaderMovePrev",
            Self::HeaderCycleSortOrder => "HeaderCycleSortOrder",
        }
    }
}

/// Command round-trip: every command's string identifier parses back to the
/// same command.
pub proof fn lemma_command_round_trip(c: Command)
    ensures
        command_from_name(command_name(c)) == Some(c),
{
    reveal_strlit("SelectNextRow");
    assert("SelectNextRow"@.len() == 13 && "SelectNextRow"@[0] == 'S' && "SelectNextRow"@[6] == 'N');
    reveal_strlit("SelectPrevRow");
    assert("SelectPrevRow"@.len() == 13 && "SelectPrevRow"@[0] == 'S' && "SelectPrevRow"@[6] == 'P');
    reveal_strlit("SelectFirstRow");
    assert("SelectFirstRow"@.len() == 14 && "SelectFirstRow"@[0] == 'S' && "SelectFirstRow"@[5] == 't' && "SelectFirstRow"@[10] == 't');
    reveal_strlit("SelectLastRow");
    assert("SelectLastRow"@.len() == 13 && "SelectLastRow"@[0] == 'S' && "SelectLastRow"@[6] == 'L');
    reveal_strlit("NextPage");
    assert("NextPage"@.len() == 8 && "NextPage"@[0] == 'N');
    reveal_strlit("PrevPage");
    assert("PrevPage"@.len() == 8 && "PrevPage"@[0] == 'P');
    reveal_strlit("ClearSelection");
    assert("ClearSelection"@.len() == 14 && "ClearSelection"@[0] == 'C' && "ClearSelection"@[5] == 'S' && "ClearSelection"@[10] == 't');
    reveal_strlit("OpenSelectedTask");
    assert("OpenSelectedTask"@.len() == 16 && "OpenSelectedTask"@[0] == 'O' && "OpenSelectedTask"@[6] == 'l');
    reveal_strlit("Sync");
    assert("Sync"@.len() == 4);
    reveal_strlit("FocusSearch");
    assert("FocusSearch"@.len() == 11 && "FocusSearch"@[0] == 'F');
    reveal_strlit("FocusTable");
    assert("FocusTable"@.len() == 10 && "FocusTable"@[0] == 'F');
    reveal_strlit("FocusTableHeaders");
    assert("FocusTableHeaders"@.len() == 17);
    reveal_strlit("FocusSidebar");
    assert("FocusSidebar"@.len() == 12 && "FocusSidebar"@[0] == 'F');
    reveal_strlit("FocusSidebarProjects");
    assert("FocusSidebarProjects"@.len() == 20 && "FocusSidebarProjects"@[0] == 'F');
    reveal_strlit("FocusSidebarTags");
    assert("FocusSidebarTags"@.len() == 16 && "FocusSidebarTags"@[0] == 'F' && "FocusSidebarTags"@[6] == 'i');
    reveal_strlit("BlurInput");
    assert("BlurInput"@.len() == 9 && "BlurInput"@[0] == 'B');
    reveal_strlit("CloseModal");
    assert("CloseModal"@.len() == 10 && "CloseModal"@[0] == 'C');
    reveal_strlit("SaveModal");
    assert("SaveModal"@.len() == 9 && "SaveModal"@[0] == 'S');
    reveal_strlit("ModalScrollUp");
    assert("ModalScrollUp"@.len() == 13 && "ModalScrollUp"@[0] == 'M' && "ModalScrollUp"@[6] == 'c');
    reveal_strlit("ModalScrollDown");
    assert("ModalScrollDown"@.len() == 15 && "ModalScrollDown"@[0] == 'M' && "ModalScrollDown"@[1] == 'o' && "ModalScrollDown"@[11] == 'D');
    reveal_strlit("ApplySearch");
    assert("ApplySearch"@.len() == 11 && "ApplySearch"@[0] == 'A');
    reveal_strlit("ClearFilters");
    assert("ClearFilters"@.len() == 12 && "ClearFilters"@[0] == 'C');
    reveal_strlit("ClearAllFilters");
    assert("ClearAllFilters"@.len() == 15 && "ClearAllFilters"@[0] == 'C' && "ClearAllFilters"@[1] == 'l' && "ClearAllFilters"@[11] == 't');
    reveal_strlit("ClearProjectFilter");
    assert("ClearProjectFilter"@.len() == 18);
    reveal_strlit("ClearTagFilter");
    assert("ClearTagFilter"@.len() == 14 && "ClearTagFilter"@[0] == 'C' && "ClearTagFilter"@[5] == 'T' && "ClearTagFilter"@[10] == 'l');
    reveal_strlit("ClearSearchAndDropdowns");
    assert("ClearSearchAndDropdowns"@.len() == 23);
    reveal_strlit("FocusFilterNext");
    assert("FocusFilterNext"@.len() == 15 && "FocusFilterNext"@[0] == 'F' && "FocusFilterNext"@[1] == 'o' && "FocusFilterNext"@[11] == 'N');
    reveal_strlit("FocusFilterPrev");
    assert("FocusFilterPrev"@.len() == 15 && "FocusFilterPrev"@[0] == 'F' && "FocusFilterPrev"@[1] == 'o' && "FocusFilterPrev"@[11] == 'P');
    reveal_strlit("ToggleDropdown");
    assert("ToggleDropdown"@.len() == 14 && "ToggleDropdown"@[0] == 'T' && "ToggleDropdown"@[5] == 'e' && "ToggleDropdown"@[10] == 'd');
    reveal_strlit("SelectNextOption");
    assert("SelectNextOption"@.len() == 16 && "SelectNextOption"@[0] == 'S' && "SelectNextOption"@[6] == 'N');
    reveal_strlit("SelectPrevOption");
    assert("SelectPrevOption"@.len() == 16 && "SelectPrevOption"@[0] == 'S' && "SelectPrevOption"@[6] == 'P');
    reveal_strlit("ExpandProject");
    assert("ExpandProject"@.len() == 13 && "ExpandProject"@[0] == 'E' && "ExpandProject"@[6] == 'P');
    reveal_strlit("CollapseProject");
    assert("CollapseProject"@.len() == 15 && "CollapseProject"@[0] == 'C' && "CollapseProject"@[1] == 'o' && "CollapseProject"@[11] == 'j');
    reveal_strlit("HeaderMoveNext");
    assert("HeaderMoveNext"@.len() == 14 && "HeaderMoveNext"@[0] == 'H' && "HeaderMoveNext"@[5] == 'r' && "HeaderMoveNext"@[10] == 'N');
    reveal_strlit("HeaderMovePrev");
    assert("HeaderMovePrev"@.len() == 14 && "HeaderMovePrev"@[0] == 'H' && "HeaderMovePrev"@[5] == 'r' && "HeaderMovePrev"@[10] == 'P');
    reveal_strlit("HeaderCycleSortOrder");
    assert("HeaderCycleSortOrder"@.len() == 20 && "HeaderCycleSortOrder"@[0] == 'H');
    match c {
        Command::SelectNextRow => {
            assert(command_from_name(command_name(c)) == Some(c));
        },
        Command::SelectPrevRow => {
            assert(command_from_name(command_name(c)) == Some(c));
        },
        Command::SelectFirstRow => {
            assert(command_from_name(command_name(c)) == Some(c));
        },
        Command::SelectLastRow => {
            assert(command_from_name(command_name(c)) == Some(c));
        },
        Command::NextPage => {
            assert(command_from_name(command_name(c)) == Some(c));
        },
        Command::PrevPage => {
            assert(command_from_name(command_name(c)) == Some(c));
        },
        Command::ClearSelection => {
            assert(command_from_name(command_name(c)) == Some(c));
        },
        Command::OpenSelectedTask => {
            assert(command_from_name(command_name(c)) == Some(c));
        },
        Command::Sync => {
            assert(command_from_name(command_name(c)) == Some(c));
        },
        Command::FocusSearch => {
            assert(command_from_name(command_name(c)) == Some(c));
        },
        Command::FocusTable => {
            assert(command_from_name(command_name(c)) == Some(c));
        },
        Command::FocusTableHeaders => {
            assert(command_from_name(command_name(c)) == Some(c));
        },
        Command::FocusSidebar => {
            assert(command_from_name(command_name(c)) == Some(c));
        },
        Command::FocusSidebarProjects => {
            assert(command_from_name(command_name(c)) == Some(c));
        },
        Command::FocusSidebarTags => {
            assert(command_from_name(command_name(c)) == Some(c));
        },
        Command::BlurInput => {
            assert(command_from_name(command_name(c)) == Some(c));
        },
        Command::CloseModal => {
            assert(command_from_name(command_name(c)) == Some(c));
        },
        Command::SaveModal => {
            assert(command_from_name(command_name(c)) == Some(c));
        },
        Command::ModalScrollUp => {
            assert(command_from_name(command_name(c)) == Some(c));
        },
        Command::ModalScrollDown => {
            assert(command_from_name(command_name(c)) == Some(c));
        },
        Command::ApplySearch => {
            assert(command_from_name(command_name(c)) == Some(c));
        },
        Command::ClearFilters => {
            assert(command_from_name(command_name(c)) == Some(c));
        },
        Command::ClearAllFilters => {
            assert(command_from_name(command_name(c)) == Some(c));
        },
        Command::ClearProjectFilter => {
            assert(command_from_name(command_name(c)) == Some(c));
        },
        Command::ClearTagFilter => {
            assert(command_from_name(command_name(c)) == Some(c));
        },
        Command::ClearSearchAndDropdowns => {
            assert(command_from_name(command_name(c)) == Some(c));
        },
        Command::FocusFilterNext => {
            assert(command_from_name(command_name(c)) == Some(c));
        },
        Command::FocusFilterPrev => {
            assert(command_from_name(command_name(c)) == Some(c));
        },
        Command::ToggleDropdown => {
            assert(command_from_name(command_name(c)) == Some(c));
        },
        Command::SelectNextOption => {
            assert(command_from_name(command_name(c)) == Some(c));
        },
        Command::SelectPrevOption => {
            assert(command_from_name(command_name(c)) == Some(c));
        },
        Command::ExpandProject => {
            assert(command_from_name(command_name(c)) == Some(c));
        },
        Command::CollapseProject => {
            assert(command_from_name(command_name(c)) == Some(c));
        },
        Command::HeaderMoveNext => {
            assert(command_from_name(command_name(c)) == Some(c));
        },
        Command::HeaderMovePrev => {
            assert(command_from_name(command_name(c)) == Some(c));
        },
        Command::HeaderCycleSortOrder => {
            assert(command_from_name(command_name(c)) == Some(c));
        },
    }
}

} // verus!
