use tasknav::bindings::{GlobalAction, KeyBinding, TableAction};
use tasknav::chord::Mods;
use tasknav::filters::{PriorityFilter, StatusFilter};

#[test]
fn test_status_filter_labels() {
    assert_eq!(StatusFilter::All.as_str(), "All");
    assert_eq!(StatusFilter::Pending.as_str(), "Pending");
    assert_eq!(StatusFilter::Completed.as_str(), "Completed");
    assert_eq!(StatusFilter::Waiting.as_str(), "Waiting");
    assert_eq!(StatusFilter::Deleted.as_str(), "Deleted");
}

#[test]
fn test_status_filter_indexing() {
    let variants = StatusFilter::all_variants();
    assert_eq!(variants.len(), 5);
    for (i, v) in variants.iter().enumerate() {
        assert_eq!(v.to_index(), i);
        assert_eq!(StatusFilter::from_index(i), *v);
    }
    assert_eq!(StatusFilter::from_index(99), StatusFilter::Pending);
    assert_eq!(StatusFilter::default(), StatusFilter::Pending);
}

#[test]
fn test_priority_filter_labels() {
    assert_eq!(PriorityFilter::All.as_str(), "All");
    assert_eq!(PriorityFilter::High.as_str(), "High (H)");
    assert_eq!(PriorityFilter::Medium.as_str(), "Medium (M)");
    assert_eq!(PriorityFilter::Low.as_str(), "Low (L)");
    assert_eq!(PriorityFilter::NoPriority.as_str(), "None");
}

#[test]
fn test_priority_filter_indexing() {
    let variants = PriorityFilter::all_variants();
    assert_eq!(variants.len(), 5);
    for (i, v) in variants.iter().enumerate() {
        assert_eq!(v.to_index(), i);
        assert_eq!(PriorityFilter::from_index(i), *v);
    }
    assert_eq!(PriorityFilter::from_index(7), PriorityFilter::All);
    assert_eq!(PriorityFilter::default(), PriorityFilter::All);
}

#[test]
fn test_key_binding_from_keystroke() {
    let plain = Mods::none();
    assert_eq!(
        KeyBinding::from_keystroke("ArrowUp", &plain),
        Some(KeyBinding::ArrowUp)
    );
    assert_eq!(
        KeyBinding::from_keystroke("Escape", &plain),
        Some(KeyBinding::Escape)
    );
    assert_eq!(KeyBinding::from_keystroke("j", &plain), None);

    let platform = Mods::platform();
    assert_eq!(
        KeyBinding::from_keystroke("r", &platform),
        Some(KeyBinding::Refresh)
    );
    assert_eq!(
        KeyBinding::from_keystroke("F", &platform),
        Some(KeyBinding::Focus)
    );
    assert_eq!(KeyBinding::from_keystroke("x", &platform), None);

    let ctrl = Mods::ctrl();
    assert_eq!(KeyBinding::from_keystroke("ArrowUp", &ctrl), None);
}

#[test]
fn test_table_action_from_binding() {
    assert_eq!(
        TableAction::from_binding(&KeyBinding::ArrowDown),
        Some(TableAction::SelectNext)
    );
    assert_eq!(
        TableAction::from_binding(&KeyBinding::ArrowUp),
        Some(TableAction::SelectPrevious)
    );
    assert_eq!(
        TableAction::from_binding(&KeyBinding::Escape),
        Some(TableAction::ClearSelection)
    );
    assert_eq!(
        TableAction::from_binding(&KeyBinding::ArrowRight),
        Some(TableAction::ExpandProject)
    );
    assert_eq!(TableAction::from_binding(&KeyBinding::Refresh), None);
}

#[test]
fn test_global_action_from_binding() {
    assert_eq!(
        GlobalAction::from_binding(&KeyBinding::Refresh),
        Some(GlobalAction::Refresh)
    );
    assert_eq!(
        GlobalAction::from_binding(&KeyBinding::Focus),
        Some(GlobalAction::FocusSearch)
    );
    assert_eq!(GlobalAction::from_binding(&KeyBinding::Enter), None);
}
