use tasknav::command::Command;
use tasknav::context::ContextId;

#[test]
fn test_command_round_trip() {
    let all = [
        Command::SelectNextRow,
        Command::SelectPrevRow,
        Command::SelectFirstRow,
        Command::SelectLastRow,
        Command::NextPage,
        Command::PrevPage,
        Command::ClearSelection,
        Command::OpenSelectedTask,
        Command::Sync,
        Command::FocusSearch,
        Command::FocusTable,
        Command::FocusTableHeaders,
        Command::FocusSidebar,
        Command::FocusSidebarProjects,
        Command::FocusSidebarTags,
        Command::BlurInput,
        Command::CloseModal,
        Command::SaveModal,
        Command::ModalScrollUp,
        Command::ModalScrollDown,
        Command::ApplySearch,
        Command::ClearFilters,
        Command::ClearAllFilters,
        Command::ClearProjectFilter,
        Command::ClearTagFilter,
        Command::ClearSearchAndDropdowns,
        Command::FocusFilterNext,
        Command::FocusFilterPrev,
        Command::ToggleDropdown,
        Command::SelectNextOption,
        Command::SelectPrevOption,
        Command::ExpandProject,
        Command::CollapseProject,
        Command::HeaderMoveNext,
        Command::HeaderMovePrev,
        Command::HeaderCycleSortOrder,
    ];
    for c in all {
        assert_eq!(Command::from_str(c.as_str()), Some(c), "failed on {}", c.as_str());
    }
}

#[test]
fn test_command_from_str_unknown() {
    assert_eq!(Command::from_str("NotACommand"), None);
    assert_eq!(Command::from_str(""), None);
    assert_eq!(Command::from_str("selectnextrow"), None);
}

#[test]
fn test_context_round_trip() {
    let all = [
        ContextId::Global,
        ContextId::Table,
        ContextId::TableHeaders,
        ContextId::SidebarProjects,
        ContextId::SidebarTags,
        ContextId::Modal,
        ContextId::FilterBar,
        ContextId::TextInput,
    ];
    for c in all {
        assert_eq!(ContextId::from_str(c.as_str()), Some(c));
        assert_eq!(
            ContextId::from_str(&c.as_str().to_lowercase()),
            Some(c)
        );
    }
    assert_eq!(ContextId::from_str("nowhere"), None);
}
