use tinyview::shortcuts::{menu_layout, MenuItem, MenuSection};

fn layout_contains(layout: &[MenuSection], target: MenuItem) -> bool {
    layout.iter().flat_map(|s| s.items.iter()).any(|&i| i == target)
}

#[test]
fn required_shortcuts_present_with_expected_accelerators() {
    let layout = menu_layout();
    let expected = [
        (MenuItem::Quit, "Cmd+Q"),
        (MenuItem::Fullscreen, "Ctrl+Cmd+F"),
        (MenuItem::CloseWindow, "Cmd+W"),
        (MenuItem::Minimize, "Cmd+M"),
        (MenuItem::Copy, "Cmd+C"),
        (MenuItem::Paste, "Cmd+V"),
    ];
    for (item, accel) in expected {
        assert!(layout_contains(&layout, item), "{item:?} must appear in the menu layout");
        assert_eq!(item.accelerator(), Some(accel), "{item:?} should map to {accel}");
    }
}

#[test]
fn first_section_is_app_menu_and_holds_quit() {
    let layout = menu_layout();
    let app = &layout[0];
    assert_eq!(app.title, "TinyView");
    assert!(app.items.contains(&MenuItem::Quit), "MenuItem::Quit belongs in the app menu");
}

#[test]
fn separators_are_never_dangling_or_doubled() {
    for section in menu_layout() {
        let items = &section.items;
        assert!(
            !items.first().is_some_and(|i| i.is_separator()),
            "{}: must not start with a separator",
            section.title
        );
        assert!(
            !items.last().is_some_and(|i| i.is_separator()),
            "{}: must not end with a separator",
            section.title
        );
        for pair in items.windows(2) {
            assert!(
                !(pair[0].is_separator() && pair[1].is_separator()),
                "{}: has two consecutive separators",
                section.title
            );
        }
    }
}

#[test]
fn accelerators_are_unique() {
    let mut seen: Vec<&str> = Vec::new();
    for section in menu_layout() {
        for item in &section.items {
            if let Some(accel) = item.accelerator() {
                assert!(!seen.contains(&accel), "accelerator {accel} is assigned to more than one item");
                seen.push(accel);
            }
        }
    }
}

#[test]
fn every_section_is_titled_and_non_empty() {
    for section in menu_layout() {
        assert!(!section.title.is_empty(), "section title must not be empty");
        assert!(!section.items.is_empty(), "{}: section must have at least one item", section.title);
    }
}

#[test]
fn separator_has_no_accelerator() {
    assert!(MenuItem::Separator.is_separator());
    assert_eq!(MenuItem::Separator.accelerator(), None);
}

#[test]
fn actionable_items_have_accelerators_except_about_and_show_all() {
    for section in menu_layout() {
        for &item in &section.items {
            if item.is_separator() {
                continue;
            }
            let has_accel = item.accelerator().is_some();
            let expected = !matches!(item, MenuItem::About | MenuItem::ShowAll);
            assert_eq!(has_accel, expected, "{item:?}: accelerator presence does not match the spec");
        }
    }
}

#[test]
fn layout_sections_in_standard_order() {
    let titles: Vec<&str> = menu_layout().iter().map(|s| s.title).collect();
    assert_eq!(titles, vec!["TinyView", "Edit", "View", "Window"]);
    let layout = menu_layout();
    assert_eq!(layout[1].items, vec![MenuItem::Cut, MenuItem::Copy, MenuItem::Paste, MenuItem::SelectAll]);
    assert_eq!(layout[3].items, vec![MenuItem::Minimize, MenuItem::Separator, MenuItem::CloseWindow]);
}

#[test]
fn every_accelerator_value() {
    assert_eq!(MenuItem::Hide.accelerator(), Some("Cmd+H"));
    assert_eq!(MenuItem::HideOthers.accelerator(), Some("Cmd+Alt+H"));
    assert_eq!(MenuItem::Cut.accelerator(), Some("Cmd+X"));
    assert_eq!(MenuItem::SelectAll.accelerator(), Some("Cmd+A"));
    assert_eq!(MenuItem::About.accelerator(), None);
    assert_eq!(MenuItem::ShowAll.accelerator(), None);
    assert!(!MenuItem::Quit.is_separator());
}

#[test]
fn menu_install_without_native_menu() {
    let _guard: tinyview::menu::MenuGuard = tinyview::menu::install();
}
