use tasknav::active_context::FocusTarget;
use tasknav::chord::Mods;
use tasknav::command::Command;
use tasknav::context::ContextId;
use tasknav::defaults::build_default_keymap;
use tasknav::dispatcher::CommandDispatcher;
use tasknav::keymap::KeymapStack;
use tasknav::router::{DispatchAction, KeyRouting, Router};

struct StubComponent {
    received: Vec<Command>,
    selected_row: usize,
}

impl StubComponent {
    fn new() -> Self {
        StubComponent {
            received: Vec::new(),
            selected_row: 0,
        }
    }
}

impl CommandDispatcher for StubComponent {
    fn dispatch(&mut self, command: Command) -> bool {
        self.received.push(command);
        if command == Command::SelectNextRow {
            self.selected_row += 1;
        }
        true
    }
}

fn default_router() -> Router {
    let mut stack = KeymapStack::new();
    stack.push_layer(build_default_keymap());
    let mut router = Router::new(stack);
    router.set_focus_target(FocusTarget::Table);
    router
}

#[test]
fn test_modal_shadow() {
    let mut router = default_router();
    router.set_modal_open(true);
    assert_eq!(
        router.active_context(Some(ContextId::TextInput)),
        ContextId::Modal
    );
    assert_eq!(router.active_context(None), ContextId::Modal);
}

#[test]
fn test_active_context_sub_focus() {
    let mut router = default_router();
    assert_eq!(
        router.active_context(Some(ContextId::TextInput)),
        ContextId::TextInput
    );
    assert_eq!(router.active_context(None), ContextId::Table);
    router.set_focus_target(FocusTarget::SidebarTags);
    assert_eq!(
        router.active_context(Some(ContextId::TextInput)),
        ContextId::SidebarTags
    );
}

#[test]
fn test_end_to_end_table_dispatch() {
    let mut router = default_router();
    let mut table = StubComponent::new();
    let mut sidebar = StubComponent::new();

    let routing = router.handle_key("j", Mods::none(), None);
    assert_eq!(routing, KeyRouting::Dispatch(Command::SelectNextRow));
    let action = router.dispatch(Command::SelectNextRow);
    assert_eq!(action, DispatchAction::Table(Command::SelectNextRow));
    let consumed = table.dispatch(Command::SelectNextRow);
    assert!(consumed);
    assert_eq!(table.received, vec![Command::SelectNextRow]);
    assert_eq!(table.selected_row, 1);
    assert!(sidebar.received.is_empty());

    router.set_focus_target(FocusTarget::SidebarTags);
    let routing = router.handle_key("j", Mods::none(), None);
    assert_eq!(routing, KeyRouting::Dispatch(Command::SelectNextRow));
    let action = router.dispatch(Command::SelectNextRow);
    assert_eq!(action, DispatchAction::Sidebar(Command::SelectNextRow));
    let consumed = sidebar.dispatch(Command::SelectNextRow);
    assert!(consumed);
    assert_eq!(sidebar.received, vec![Command::SelectNextRow]);
    assert_eq!(table.received.len(), 1);
}

#[test]
fn test_modal_suppression() {
    let mut router = default_router();
    let mut table = StubComponent::new();
    router.set_modal_open(true);

    // `j` resolves in the modal context and scrolls the modal instead of
    // ever reaching the table.
    let routing = router.handle_key("j", Mods::none(), None);
    assert_eq!(routing, KeyRouting::Dispatch(Command::ModalScrollDown));
    let action = router.dispatch(Command::ModalScrollDown);
    assert_eq!(action, DispatchAction::ModalScroll(1));
    assert!(table.received.is_empty());
    assert_eq!(table.selected_row, 0);

    // a global binding that is not on the modal whitelist is swallowed
    let routing = router.handle_key("f", Mods::ctrl(), None);
    assert_eq!(routing, KeyRouting::Suppressed(Command::FocusSearch));
    assert!(table.received.is_empty());

    // sync stays available while the modal is open
    let routing = router.handle_key("r", Mods::ctrl(), None);
    assert_eq!(routing, KeyRouting::Dispatch(Command::Sync));
    assert_eq!(router.dispatch(Command::Sync), DispatchAction::Sync);
}

#[test]
fn test_modal_restores_focus_on_close() {
    let mut router = default_router();
    router.set_focus_target(FocusTarget::SidebarProjects);
    router.set_modal_open(true);
    // pointer focus may drift while the modal is up; closing restores it
    router.set_focus_target(FocusTarget::Table);
    router.set_modal_open(false);
    assert_eq!(router.focus_target(), FocusTarget::SidebarProjects);
}

#[test]
fn test_unmatched_key_is_silent() {
    let mut router = default_router();
    assert_eq!(
        router.handle_key("widget", Mods::none(), None),
        KeyRouting::NoMatch
    );
    assert_eq!(
        router.handle_key("q", Mods::none(), None),
        KeyRouting::NoMatch
    );
    assert_eq!(router.focus_target(), FocusTarget::Table);
}

#[test]
fn test_focus_transfer_commands() {
    let mut router = default_router();
    router.set_focus_target(FocusTarget::TableHeaders);
    let routing = router.handle_key("f", Mods::ctrl(), None);
    assert_eq!(routing, KeyRouting::FocusSearch { from_headers: true });
    assert_eq!(router.focus_target(), FocusTarget::Table);

    let routing = router.handle_key("k", Mods::ctrl(), None);
    assert_eq!(
        routing,
        KeyRouting::FocusTableHeaders {
            from_context: ContextId::Table
        }
    );
    assert_eq!(router.focus_target(), FocusTarget::TableHeaders);
}

#[test]
fn test_focus_toggle_cycles() {
    let mut router = default_router();
    assert_eq!(router.dispatch(Command::FocusTable), DispatchAction::FocusChanged);
    assert_eq!(router.focus_target(), FocusTarget::SidebarProjects);
    assert_eq!(router.dispatch(Command::FocusTable), DispatchAction::FocusChanged);
    assert_eq!(router.focus_target(), FocusTarget::SidebarTags);
    assert_eq!(router.dispatch(Command::FocusTable), DispatchAction::FocusChanged);
    assert_eq!(router.focus_target(), FocusTarget::Table);

    assert_eq!(router.dispatch(Command::FocusSidebar), DispatchAction::FocusChanged);
    assert_eq!(router.focus_target(), FocusTarget::SidebarTags);
    assert_eq!(router.dispatch(Command::FocusSidebar), DispatchAction::FocusChanged);
    assert_eq!(router.focus_target(), FocusTarget::SidebarProjects);

    assert_eq!(
        router.dispatch(Command::FocusSidebarTags),
        DispatchAction::FocusChanged
    );
    assert_eq!(router.focus_target(), FocusTarget::SidebarTags);
}

#[test]
fn test_dispatch_routing_table() {
    let mut router = default_router();
    assert_eq!(
        router.dispatch(Command::OpenSelectedTask),
        DispatchAction::OpenTaskDetail
    );
    assert_eq!(
        router.dispatch(Command::ModalScrollUp),
        DispatchAction::ModalScroll(-1)
    );
    assert_eq!(
        router.dispatch(Command::ClearAllFilters),
        DispatchAction::ClearAllFilters
    );
    assert_eq!(
        router.dispatch(Command::HeaderMoveNext),
        DispatchAction::Table(Command::HeaderMoveNext)
    );
    assert_eq!(
        router.dispatch(Command::ApplySearch),
        DispatchAction::NotConsumed
    );
    assert!(!router.dispatch(Command::ApplySearch).consumed());
    assert!(router.dispatch(Command::Sync).consumed());
    assert_eq!(
        router.dispatch(Command::FocusSearch),
        DispatchAction::NotConsumed
    );

    router.set_focus_target(FocusTarget::SidebarProjects);
    assert_eq!(
        router.dispatch(Command::ExpandProject),
        DispatchAction::Sidebar(Command::ExpandProject)
    );
    assert_eq!(
        router.dispatch(Command::OpenSelectedTask),
        DispatchAction::Sidebar(Command::OpenSelectedTask)
    );
    router.set_focus_target(FocusTarget::SidebarTags);
    assert_eq!(
        router.dispatch(Command::ExpandProject),
        DispatchAction::Sidebar(Command::ExpandProject)
    );
    assert_eq!(
        router.dispatch(Command::CollapseProject),
        DispatchAction::Sidebar(Command::CollapseProject)
    );
    router.set_focus_target(FocusTarget::Table);
    assert_eq!(
        router.dispatch(Command::ExpandProject),
        DispatchAction::Table(Command::ExpandProject)
    );
}

#[test]
fn test_filter_focus_moves() {
    let mut router = default_router();
    let routing = router.handle_key("l", Mods::ctrl(), Some(ContextId::TextInput));
    assert_eq!(routing, KeyRouting::FilterFocusMove { forward: true });
    let routing = router.handle_key("h", Mods::ctrl(), Some(ContextId::FilterBar));
    assert_eq!(routing, KeyRouting::FilterFocusMove { forward: false });
}

#[test]
fn test_push_and_pop_user_layer() {
    let mut router = default_router();
    let mut user = tasknav::keymap::KeymapLayer::new();
    user.bind(
        ContextId::Table,
        tasknav::chord::KeyChord::new(tasknav::chord::Key::Char('j'), Mods::none()),
        Command::SelectPrevRow,
    );
    router.push_layer(user);
    assert_eq!(
        router.handle_key("j", Mods::none(), None),
        KeyRouting::Dispatch(Command::SelectPrevRow)
    );
    router.pop_layer();
    assert_eq!(
        router.handle_key("j", Mods::none(), None),
        KeyRouting::Dispatch(Command::SelectNextRow)
    );
}
