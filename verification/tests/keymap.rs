use tasknav::chord::{Key, KeyChord, Mods};
use tasknav::command::Command;
use tasknav::context::ContextId;
use tasknav::defaults::build_default_keymap;
use tasknav::keymap::{KeymapLayer, KeymapStack};

#[test]
fn test_layer_bind_and_resolve() {
    let mut layer = KeymapLayer::new();
    let chord = KeyChord::new(Key::Char('j'), Mods::none());

    layer.bind(ContextId::Table, chord, Command::SelectNextRow);

    assert_eq!(
        layer.resolve(ContextId::Table, &chord),
        Some(Command::SelectNextRow)
    );
    assert_eq!(layer.resolve(ContextId::Global, &chord), None);
}

#[test]
fn test_stack_fallback_to_global() {
    let mut stack = KeymapStack::new();
    let mut layer = KeymapLayer::new();

    let chord = KeyChord::new(Key::Char('r'), Mods::platform());
    layer.bind(ContextId::Global, chord, Command::Sync);

    stack.push_layer(layer);

    assert_eq!(stack.resolve(ContextId::Table, &chord), Some(Command::Sync));
}

#[test]
fn test_stack_user_override() {
    let mut stack = KeymapStack::new();

    let mut default_layer = KeymapLayer::new();
    let chord = KeyChord::new(Key::Char('j'), Mods::none());
    default_layer.bind(ContextId::Table, chord, Command::SelectNextRow);
    stack.push_layer(default_layer);

    let mut user_layer = KeymapLayer::new();
    user_layer.bind(ContextId::Table, chord, Command::SelectPrevRow);
    stack.push_layer(user_layer);

    assert_eq!(
        stack.resolve(ContextId::Table, &chord),
        Some(Command::SelectPrevRow)
    );
}

#[test]
fn test_layer_exact_match_only() {
    let mut layer = KeymapLayer::new();
    let chord = KeyChord::new(Key::Char('j'), Mods::none());
    layer.bind(ContextId::Table, chord, Command::SelectNextRow);

    assert_eq!(layer.resolve(ContextId::SidebarProjects, &chord), None);
    assert_eq!(layer.resolve(ContextId::Modal, &chord), None);
}

#[test]
fn test_context_precedence_over_layer_order() {
    let mut stack = KeymapStack::new();
    let chord = KeyChord::new(Key::Char('j'), Mods::none());

    let mut layer_a = KeymapLayer::new();
    layer_a.bind(ContextId::Table, chord, Command::SelectNextRow);
    stack.push_layer(layer_a);

    let mut layer_b = KeymapLayer::new();
    layer_b.bind(ContextId::Global, chord, Command::FocusSearch);
    stack.push_layer(layer_b);

    assert_eq!(
        stack.resolve(ContextId::Table, &chord),
        Some(Command::SelectNextRow)
    );
    // the later global binding still answers where no specific one exists
    assert_eq!(
        stack.resolve(ContextId::SidebarTags, &chord),
        Some(Command::FocusSearch)
    );
}

#[test]
fn test_layer_last_bind_wins() {
    let mut layer = KeymapLayer::new();
    let chord = KeyChord::new(Key::Char('k'), Mods::none());
    layer.bind(ContextId::Table, chord, Command::SelectNextRow);
    layer.bind(ContextId::Table, chord, Command::SelectPrevRow);
    assert_eq!(
        layer.resolve(ContextId::Table, &chord),
        Some(Command::SelectPrevRow)
    );
}

#[test]
fn test_pop_layer_restores_resolution() {
    let mut stack = KeymapStack::new();
    let chord = KeyChord::new(Key::Char('j'), Mods::none());

    let mut base = KeymapLayer::new();
    base.bind(ContextId::Table, chord, Command::SelectNextRow);
    stack.push_layer(base);

    let mut over = KeymapLayer::new();
    over.bind(ContextId::Table, chord, Command::SelectPrevRow);
    stack.push_layer(over);

    assert_eq!(
        stack.resolve(ContextId::Table, &chord),
        Some(Command::SelectPrevRow)
    );
    assert!(stack.pop_layer().is_some());
    assert_eq!(
        stack.resolve(ContextId::Table, &chord),
        Some(Command::SelectNextRow)
    );
    assert!(stack.pop_layer().is_some());
    assert_eq!(stack.resolve(ContextId::Table, &chord), None);
    assert!(stack.pop_layer().is_none());
}

#[test]
fn test_empty_stack_resolves_nothing() {
    let stack = KeymapStack::new();
    let chord = KeyChord::new(Key::Enter, Mods::none());
    assert_eq!(stack.resolve(ContextId::Global, &chord), None);
    assert_eq!(stack.resolve(ContextId::Modal, &chord), None);
}

#[test]
fn test_default_keymap_bindings() {
    let layer = build_default_keymap();
    assert_eq!(
        layer.resolve(
            ContextId::Global,
            &KeyChord::new(Key::Char('r'), Mods::ctrl())
        ),
        Some(Command::Sync)
    );
    assert_eq!(
        layer.resolve(
            ContextId::Table,
            &KeyChord::new(Key::Char('j'), Mods::none())
        ),
        Some(Command::SelectNextRow)
    );
    assert_eq!(
        layer.resolve(
            ContextId::Modal,
            &KeyChord::new(Key::Char('j'), Mods::none())
        ),
        Some(Command::ModalScrollDown)
    );
    assert_eq!(
        layer.resolve(
            ContextId::TextInput,
            &KeyChord::new(Key::Enter, Mods::none())
        ),
        Some(Command::ApplySearch)
    );
    assert_eq!(
        layer.resolve(
            ContextId::Table,
            &KeyChord::new(Key::Char('q'), Mods::none())
        ),
        None
    );
}
