//! The default key bindings, supplied as a single static layer built once
//! at startup.

use vstd::prelude::*;
use crate::chord::{Key, KeyChord, Mods};
use crate::command::Command;
use crate::context::ContextId;
use crate::keymap::KeymapLayer;

verus! {

/// No modifier held.
pub open spec fn mods_none() -> Mods {
    Mods { ctrl: false, alt: false, shift: false, platform: false }
}

/// Control alone.
pub open spec fn mods_ctrl() -> Mods {
    Mods { ctrl: true, alt: false, shift: false, platform: false }
}

/// Shift alone.
pub open spec fn mods_shift() -> Mods {
    Mods { ctrl: false, alt: false, shift: true, platform: false }
}

/// The complete default rule table.
pub open spec fn default_keymap_map() -> Map<(ContextId, KeyChord), Command> {
    Map::empty()
        .insert((ContextId::Global, KeyChord { key: Key::Char('r'), mods: mods_ctrl() }), Command::Sync)
        .insert((ContextId::Global, KeyChord { key: Key::Char('f'), mods: mods_ctrl() }), Command::FocusSearch)
        .insert((ContextId::Global, KeyChord { key: Key::Escape, mods: mods_none() }), Command::CloseModal)
        .insert((ContextId::Global, KeyChord { key: Key::Tab, mods: mods_none() }), Command::FocusTable)
        .insert((ContextId::Global, KeyChord { key: Key::Tab, mods: mods_shift() }), Command::FocusSidebar)
        .insert((ContextId::Global, KeyChord { key: Key::Char('c'), mods: mods_ctrl() }), Command::ClearAllFilters)
        .insert((ContextId::Global, KeyChord { key: Key::Char('p'), mods: mods_ctrl() }), Command::ClearProjectFilter)
        .insert((ContextId::Global, KeyChord { key: Key::Char('t'), mods: mods_ctrl() }), Command::ClearTagFilter)
        .insert((ContextId::Global, KeyChord { key: Key::Char('x'), mods: mods_ctrl() }), Command::ClearSearchAndDropdowns)
        .insert((ContextId::Table, KeyChord { key: Key::Char('h'), mods: mods_ctrl() }), Command::FocusSidebarProjects)
        .insert((ContextId::Table, KeyChord { key: Key::Char('k'), mods: mods_ctrl() }), Command::FocusTableHeaders)
        .insert((ContextId::Table, KeyChord { key: Key::Char('j'), mods: mods_none() }), Command::SelectNextRow)
        .insert((ContextId::Table, KeyChord { key: Key::Char('k'), mods: mods_none() }), Command::SelectPrevRow)
        .insert((ContextId::Table, KeyChord { key: Key::ArrowDown, mods: mods_none() }), Command::SelectNextRow)
        .insert((ContextId::Table, KeyChord { key: Key::ArrowUp, mods: mods_none() }), Command::SelectPrevRow)
        .insert((ContextId::Table, KeyChord { key: Key::Char('g'), mods: mods_none() }), Command::SelectFirstRow)
        .insert((ContextId::Table, KeyChord { key: Key::Char('g'), mods: mods_shift() }), Command::SelectLastRow)
        .insert((ContextId::Table, KeyChord { key: Key::Home, mods: mods_none() }), Command::SelectFirstRow)
        .insert((ContextId::Table, KeyChord { key: Key::End, mods: mods_none() }), Command::SelectLastRow)
        .insert((ContextId::Table, KeyChord { key: Key::PageDown, mods: mods_none() }), Command::NextPage)
        .insert((ContextId::Table, KeyChord { key: Key::PageUp, mods: mods_none() }), Command::PrevPage)
        .insert((ContextId::Table, KeyChord { key: Key::Char('l'), mods: mods_none() }), Command::NextPage)
        .insert((ContextId::Table, KeyChord { key: Key::Char('h'), mods: mods_none() }), Command::PrevPage)
        .insert((ContextId::Table, KeyChord { key: Key::Escape, mods: mods_none() }), Command::ClearSelection)
        .insert((ContextId::Table, KeyChord { key: Key::Enter, mods: mods_none() }), Command::OpenSelectedTask)
        .insert((ContextId::Table, KeyChord { key: Key::ArrowLeft, mods: mods_none() }), Command::CollapseProject)
        .insert((ContextId::Table, KeyChord { key: Key::ArrowRight, mods: mods_none() }), Command::ExpandProject)
        .insert((ContextId::TableHeaders, KeyChord { key: Key::Char('h'), mods: mods_none() }), Command::HeaderMovePrev)
        .insert((ContextId::TableHeaders, KeyChord { key: Key::Char('l'), mods: mods_none() }), Command::HeaderMoveNext)
        .insert((ContextId::TableHeaders, KeyChord { key: Key::ArrowLeft, mods: mods_none() }), Command::HeaderMovePrev)
        .insert((ContextId::TableHeaders, KeyChord { key: Key::ArrowRight, mods: mods_none() }), Command::HeaderMoveNext)
        .insert((ContextId::TableHeaders, KeyChord { key: Key::Char('j'), mods: mods_none() }), Command::HeaderCycleSortOrder)
        .insert((ContextId::TableHeaders, KeyChord { key: Key::Char('k'), mods: mods_none() }), Command::HeaderCycleSortOrder)
        .insert((ContextId::TableHeaders, KeyChord { key: Key::Enter, mods: mods_none() }), Command::HeaderCycleSortOrder)
        .insert((ContextId::TableHeaders, KeyChord { key: Key::Space, mods: mods_none() }), Command::HeaderCycleSortOrder)
        .insert((ContextId::TableHeaders, KeyChord { key: Key::Char('j'), mods: mods_ctrl() }), Command::FocusTable)
        .insert((ContextId::TableHeaders, KeyChord { key: Key::Char('k'), mods: mods_ctrl() }), Command::FocusSearch)
        .insert((ContextId::SidebarProjects, KeyChord { key: Key::Char('l'), mods: mods_ctrl() }), Command::FocusTable)
        .insert((ContextId::SidebarProjects, KeyChord { key: Key::Char('j'), mods: mods_ctrl() }), Command::FocusSidebarTags)
        .insert((ContextId::SidebarProjects, KeyChord { key: Key::Char('j'), mods: mods_none() }), Command::SelectNextRow)
        .insert((ContextId::SidebarProjects, KeyChord { key: Key::Char('k'), mods: mods_none() }), Command::SelectPrevRow)
        .insert((ContextId::SidebarProjects, KeyChord { key: Key::ArrowDown, mods: mods_none() }), Command::SelectNextRow)
        .insert((ContextId::SidebarProjects, KeyChord { key: Key::ArrowUp, mods: mods_none() }), Command::SelectPrevRow)
        .insert((ContextId::SidebarProjects, KeyChord { key: Key::Char('g'), mods: mods_none() }), Command::SelectFirstRow)
        .insert((ContextId::SidebarProjects, KeyChord { key: Key::Char('g'), mods: mods_shift() }), Command::SelectLastRow)
        .insert((ContextId::SidebarProjects, KeyChord { key: Key::Char('h'), mods: mods_none() }), Command::CollapseProject)
        .insert((ContextId::SidebarProjects, KeyChord { key: Key::Char('l'), mods: mods_none() }), Command::ExpandProject)
        .insert((ContextId::SidebarProjects, KeyChord { key: Key::ArrowLeft, mods: mods_none() }), Command::CollapseProject)
        .insert((ContextId::SidebarProjects, KeyChord { key: Key::ArrowRight, mods: mods_none() }), Command::ExpandProject)
        .insert((ContextId::SidebarProjects, KeyChord { key: Key::Enter, mods: mods_none() }), Command::OpenSelectedTask)
        .insert((ContextId::SidebarProjects, KeyChord { key: Key::Space, mods: mods_none() }), Command::OpenSelectedTask)
        .insert((ContextId::SidebarTags, KeyChord { key: Key::Char('l'), mods: mods_ctrl() }), Command::FocusTable)
        .insert((ContextId::SidebarTags, KeyChord { key: Key::Char('k'), mods: mods_ctrl() }), Command::FocusSidebarProjects)
        .insert((ContextId::SidebarTags, KeyChord { key: Key::Char('j'), mods: mods_none() }), Command::SelectNextRow)
        .insert((ContextId::SidebarTags, KeyChord { key: Key::Char('k'), mods: mods_none() }), Command::SelectPrevRow)
        .insert((ContextId::SidebarTags, KeyChord { key: Key::ArrowDown, mods: mods_none() }), Command::SelectNextRow)
        .insert((ContextId::SidebarTags, KeyChord { key: Key::ArrowUp, mods: mods_none() }), Command::SelectPrevRow)
        .insert((ContextId::SidebarTags, KeyChord { key: Key::Char('g'), mods: mods_none() }), Command::SelectFirstRow)
        .insert((ContextId::SidebarTags, KeyChord { key: Key::Char('g'), mods: mods_shift() }), Command::SelectLastRow)
        .insert((ContextId::SidebarTags, KeyChord { key: Key::Enter, mods: mods_none() }), Command::OpenSelectedTask)
        .insert((ContextId::SidebarTags, KeyChord { key: Key::Space, mods: mods_none() }), Command::OpenSelectedTask)
        .insert((ContextId::TextInput, KeyChord { key: Key::Escape, mods: mods_none() }), Command::BlurInput)
        .insert((ContextId::TextInput, KeyChord { key: Key::Enter, mods: mods_none() }), Command::ApplySearch)
        .insert((ContextId::TextInput, KeyChord { key: Key::Char('l'), mods: mods_ctrl() }), Command::FocusFilterNext)
        .insert((ContextId::TextInput, KeyChord { key: Key::Char('h'), mods: mods_ctrl() }), Command::FocusFilterPrev)
        .insert((ContextId::TextInput, KeyChord { key: Key::Char('j'), mods: mods_ctrl() }), Command::FocusTableHeaders)
        .insert((ContextId::FilterBar, KeyChord { key: Key::Enter, mods: mods_none() }), Command::ToggleDropdown)
        .insert((ContextId::FilterBar, KeyChord { key: Key::Space, mods: mods_none() }), Command::ToggleDropdown)
        .insert((ContextId::FilterBar, KeyChord { key: Key::Char('j'), mods: mods_none() }), Command::SelectNextOption)
        .insert((ContextId::FilterBar, KeyChord { key: Key::Char('k'), mods: mods_none() }), Command::SelectPrevOption)
        .insert((ContextId::FilterBar, KeyChord { key: Key::ArrowDown, mods: mods_none() }), Command::SelectNextOption)
        .insert((ContextId::FilterBar, KeyChord { key: Key::ArrowUp, mods: mods_none() }), Command::SelectPrevOption)
        .insert((ContextId::FilterBar, KeyChord { key: Key::Char('l'), mods: mods_ctrl() }), Command::FocusFilterNext)
        .insert((ContextId::FilterBar, KeyChord { key: Key::Char('h'), mods: mods_ctrl() }), Command::FocusFilterPrev)
        .insert((ContextId::FilterBar, KeyChord { key: Key::Char('j'), mods: mods_ctrl() }), Command::FocusTableHeaders)
        .insert((ContextId::FilterBar, KeyChord { key: Key::Escape, mods: mods_none() }), Command::BlurInput)
        .insert((ContextId::Modal, KeyChord { key: Key::Escape, mods: mods_none() }), Command::CloseModal)
        .insert((ContextId::Modal, KeyChord { key: Key::Char('j'), mods: mods_none() }), Command::ModalScrollDown)
        .insert((ContextId::Modal, KeyChord { key: Key::Char('k'), mods: mods_none() }), Command::ModalScrollUp)
        .insert((ContextId::Modal, KeyChord { key: Key::ArrowDown, mods: mods_none() }), Command::ModalScrollDown)
        .insert((ContextId::Modal, KeyChord { key: Key::ArrowUp, mods: mods_none() }), Command::ModalScrollUp)
        .insert((ContextId::Modal, KeyChord { key: Key::Enter, mods: mods_ctrl() }), Command::SaveModal)
}

/// Builds the default keymap layer: exactly the rule table of
/// [`default_keymap_map`].
pub fn build_default_keymap() -> (r: KeymapLayer)
    ensures
        r@ == default_keymap_map(),
{
    let mut layer = KeymapLayer::new();
    layer.bind(ContextId::Global, KeyChord::new(Key::Char('r'), Mods::ctrl()), Command::Sync);
    layer.bind(ContextId::Global, KeyChord::new(Key::Char('f'), Mods::ctrl()), Command::FocusSearch);
    layer.bind(ContextId::Global, KeyChord::new(Key::Escape, Mods::none()), Command::CloseModal);
    layer.bind(ContextId::Global, KeyChord::new(Key::Tab, Mods::none()), Command::FocusTable);
    layer.bind(ContextId::Global, KeyChord::new(Key::Tab, Mods::shift()), Command::FocusSidebar);
    layer.bind(ContextId::Global, KeyChord::new(Key::Char('c'), Mods::ctrl()), Command::ClearAllFilters);
    layer.bind(ContextId::Global, KeyChord::new(Key::Char('p'), Mods::ctrl()), Command::ClearProjectFilter);
    layer.bind(ContextId::Global, KeyChord::new(Key::Char('t'), Mods::ctrl()), Command::ClearTagFilter);
    layer.bind(ContextId::Global, KeyChord::new(Key::Char('x'), Mods::ctrl()), Command::ClearSearchAndDropdowns);
    layer.bind(ContextId::Table, KeyChord::new(Key::Char('h'), Mods::ctrl()), Command::FocusSidebarProjects);
    layer.bind(ContextId::Table, KeyChord::new(Key::Char('k'), Mods::ctrl()), Command::FocusTableHeaders);
    layer.bind(ContextId::Table, KeyChord::new(Key::Char('j'), Mods::none()), Command::SelectNextRow);
    layer.bind(ContextId::Table, KeyChord::new(Key::Char('k'), Mods::none()), Command::SelectPrevRow);
    layer.bind(ContextId::Table, KeyChord::new(Key::ArrowDown, Mods::none()), Command::SelectNextRow);
    layer.bind(ContextId::Table, KeyChord::new(Key::ArrowUp, Mods::none()), Command::SelectPrevRow);
    layer.bind(ContextId::Table, KeyChord::new(Key::Char('g'), Mods::none()), Command::SelectFirstRow);
    layer.bind(ContextId::Table, KeyChord::new(Key::Char('g'), Mods::shift()), Command::SelectLastRow);
    layer.bind(ContextId::Table, KeyChord::new(Key::Home, Mods::none()), Command::SelectFirstRow);
    layer.bind(ContextId::Table, KeyChord::new(Key::End, Mods::none()), Command::SelectLastRow);
    layer.bind(ContextId::Table, KeyChord::new(Key::PageDown, Mods::none()), Command::NextPage);
    layer.bind(ContextId::Table, KeyChord::new(Key::PageUp, Mods::none()), Command::PrevPage);
    layer.bind(ContextId::Table, KeyChord::new(Key::Char('l'), Mods::none()), Command::NextPage);
    layer.bind(ContextId::Table, KeyChord::new(Key::Char('h'), Mods::none()), Command::PrevPage);
    layer.bind(ContextId::Table, KeyChord::new(Key::Escape, Mods::none()), Command::ClearSelection);
    layer.bind(ContextId::Table, KeyChord::new(Key::Enter, Mods::none()), Command::OpenSelectedTask);
    layer.bind(ContextId::Table, KeyChord::new(Key::ArrowLeft, Mods::none()), Command::CollapseProject);
    layer.bind(ContextId::Table, KeyChord::new(Key::ArrowRight, Mods::none()), Command::ExpandProject);
    layer.bind(ContextId::TableHeaders, KeyChord::new(Key::Char('h'), Mods::none()), Command::HeaderMovePrev);
    layer.bind(ContextId::TableHeaders, KeyChord::new(Key::Char('l'), Mods::none()), Command::HeaderMoveNext);
    layer.bind(ContextId::TableHeaders, KeyChord::new(Key::ArrowLeft, Mods::none()), Command::HeaderMovePrev);
    layer.bind(ContextId::TableHeaders, KeyChord::new(Key::ArrowRight, Mods::none()), Command::HeaderMoveNext);
    layer.bind(ContextId::TableHeaders, KeyChord::new(Key::Char('j'), Mods::none()), Command::HeaderCycleSortOrder);
    layer.bind(ContextId::TableHeaders, KeyChord::new(Key::Char('k'), Mods::none()), Command::HeaderCycleSortOrder);
    layer.bind(ContextId::TableHeaders, KeyChord::new(Key::Enter, Mods::none()), Command::HeaderCycleSortOrder);
    layer.bind(ContextId::TableHeaders, KeyChord::new(Key::Space, Mods::none()), Command::HeaderCycleSortOrder);
    layer.bind(ContextId::TableHeaders, KeyChord::new(Key::Char('j'), Mods::ctrl()), Command::FocusTable);
    layer.bind(ContextId::TableHeaders, KeyChord::new(Key::Char('k'), Mods::ctrl()), Command::FocusSearch);
    layer.bind(ContextId::SidebarProjects, KeyChord::new(Key::Char('l'), Mods::ctrl()), Command::FocusTable);
    layer.bind(ContextId::SidebarProjects, KeyChord::new(Key::Char('j'), Mods::ctrl()), Command::FocusSidebarTags);
    layer.bind(ContextId::SidebarProjects, KeyChord::new(Key::Char('j'), Mods::none()), Command::SelectNextRow);
    layer.bind(ContextId::SidebarProjects, KeyChord::new(Key::Char('k'), Mods::none()), Command::SelectPrevRow);
    layer.bind(ContextId::SidebarProjects, KeyChord::new(Key::ArrowDown, Mods::none()), Command::SelectNextRow);
    layer.bind(ContextId::SidebarProjects, KeyChord::new(Key::ArrowUp, Mods::none()), Command::SelectPrevRow);
    layer.bind(ContextId::SidebarProjects, KeyChord::new(Key::Char('g'), Mods::none()), Command::SelectFirstRow);
    layer.bind(ContextId::SidebarProjects, KeyChord::new(Key::Char('g'), Mods::shift()), Command::SelectLastRow);
    layer.bind(ContextId::SidebarProjects, KeyChord::new(Key::Char('h'), Mods::none()), Command::CollapseProject);
    layer.bind(ContextId::SidebarProjects, KeyChord::new(Key::Char('l'), Mods::none()), Command::ExpandProject);
    layer.bind(ContextId::SidebarProjects, KeyChord::new(Key::ArrowLeft, Mods::none()), Command::CollapseProject);
    layer.bind(ContextId::SidebarProjects, KeyChord::new(Key::ArrowRight, Mods::none()), Command::ExpandProject);
    layer.bind(ContextId::SidebarProjects, KeyChord::new(Key::Enter, Mods::none()), Command::OpenSelectedTask);
    layer.bind(ContextId::SidebarProjects, KeyChord::new(Key::Space, Mods::none()), Command::OpenSelectedTask);
    layer.bind(ContextId::SidebarTags, KeyChord::new(Key::Char('l'), Mods::ctrl()), Command::FocusTable);
    layer.bind(ContextId::SidebarTags, KeyChord::new(Key::Char('k'), Mods::ctrl()), Command::FocusSidebarProjects);
    layer.bind(ContextId::SidebarTags, KeyChord::new(Key::Char('j'), Mods::none()), Command::SelectNextRow);
    layer.bind(ContextId::SidebarTags, KeyChord::new(Key::Char('k'), Mods::none()), Command::SelectPrevRow);
    layer.bind(ContextId::SidebarTags, KeyChord::new(Key::ArrowDown, Mods::none()), Command::SelectNextRow);
    layer.bind(ContextId::SidebarTags, KeyChord::new(Key::ArrowUp, Mods::none()), Command::SelectPrevRow);
    layer.bind(ContextId::SidebarTags, KeyChord::new(Key::Char('g'), Mods::none()), Command::SelectFirstRow);
    layer.bind(ContextId::SidebarTags, KeyChord::new(Key::Char('g'), Mods::shift()), Command::SelectLastRow);
    layer.bind(ContextId::SidebarTags, KeyChord::new(Key::Enter, Mods::none()), Command::OpenSelectedTask);
    layer.bind(ContextId::SidebarTags, KeyChord::new(Key::Space, Mods::none()), Command::OpenSelectedTask);
    layer.bind(ContextId::TextInput, KeyChord::new(Key::Escape, Mods::none()), Command::BlurInput);
    layer.bind(ContextId::TextInput, KeyChord::new(Key::Enter, Mods::none()), Command::ApplySearch);
    layer.bind(ContextId::TextInput, KeyChord::new(Key::Char('l'), Mods::ctrl()), Command::FocusFilterNext);
    layer.bind(ContextId::TextInput, KeyChord::new(Key::Char('h'), Mods::ctrl()), Command::FocusFilterPrev);
    layer.bind(ContextId::TextInput, KeyChord::new(Key::Char('j'), Mods::ctrl()), Command::FocusTableHeaders);
    layer.bind(ContextId::FilterBar, KeyChord::new(Key::Enter, Mods::none()), Command::ToggleDropdown);
    layer.bind(ContextId::FilterBar, KeyChord::new(Key::Space, Mods::none()), Command::ToggleDropdown);
    layer.bind(ContextId::FilterBar, KeyChord::new(Key::Char('j'), Mods::none()), Command::SelectNextOption);
    layer.bind(ContextId::FilterBar, KeyChord::new(Key::Char('k'), Mods::none()), Command::SelectPrevOption);
    layer.bind(ContextId::FilterBar, KeyChord::new(Key::ArrowDown, Mods::none()), Command::SelectNextOption);
    layer.bind(ContextId::FilterBar, KeyChord::new(Key::ArrowUp, Mods::none()), Command::SelectPrevOption);
    layer.bind(ContextId::FilterBar, KeyChord::new(Key::Char('l'), Mods::ctrl()), Command::FocusFilterNext);
    layer.bind(ContextId::FilterBar, KeyChord::new(Key::Char('h'), Mods::ctrl()), Command::FocusFilterPrev);
    layer.bind(ContextId::FilterBar, KeyChord::new(Key::Char('j'), Mods::ctrl()), Command::FocusTableHeaders);
    layer.bind(ContextId::FilterBar, KeyChord::new(Key::Escape, Mods::none()), Command::BlurInput);
    layer.bind(ContextId::Modal, KeyChord::new(Key::Escape, Mods::none()), Command::CloseModal);
    layer.bind(ContextId::Modal, KeyChord::new(Key::Char('j'), Mods::none()), Command::ModalScrollDown);
    layer.bind(ContextId::Modal, KeyChord::new(Key::Char('k'), Mods::none()), Command::ModalScrollUp);
    layer.bind(ContextId::Modal, KeyChord::new(Key::ArrowDown, Mods::none()), Command::ModalScrollDown);
    layer.bind(ContextId::Modal, KeyChord::new(Key::ArrowUp, Mods::none()), Command::ModalScrollUp);
    layer.bind(ContextId::Modal, KeyChord::new(Key::Enter, Mods::ctrl()), Command::SaveModal);
    layer
}

} // verus!
