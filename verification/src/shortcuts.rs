//! Declarative menu / keyboard-shortcut layout: the single source of truth
//! for what the native menu bar contains. Pure data, no GUI toolkit.
//!
//! Accelerators are the macOS defaults that the platform's predefined items
//! carry; they are kept as the expected specification of the on-screen
//! shortcuts.

use vstd::prelude::*;

verus! {

broadcast use vstd::string::group_string_axioms;

/// A standard menu entry; [`MenuItem::Separator`] is a visual divider.
#[derive(Debug, Clone, Copy, PartialEq, Eq, Structural)]
pub enum MenuItem {
    About,
    Hide,
    HideOthers,
    ShowAll,
    Quit,
    Cut,
    Copy,
    Paste,
    SelectAll,
    Fullscreen,
    Minimize,
    CloseWindow,
    Separator,
}

/// The expected default accelerator of an item, `None` for About, Show All
/// and the separator.
pub open spec fn accel(item: MenuItem) -> Option<Seq<char>> {
    match item {
        MenuItem::Hide => Some("Cmd+H"@),
        MenuItem::HideOthers => Some("Cmd+Alt+H"@),
        MenuItem::Quit => Some("Cmd+Q"@),
        MenuItem::Cut => Some("Cmd+X"@),
        MenuItem::Copy => Some("Cmd+C"@),
        MenuItem::Paste => Some("Cmd+V"@),
        MenuItem::SelectAll => Some("Cmd+A"@),
        MenuItem::Fullscreen => Some("Ctrl+Cmd+F"@),
        MenuItem::Minimize => Some("Cmd+M"@),
        MenuItem::CloseWindow => Some("Cmd+W"@),
        MenuItem::About | MenuItem::ShowAll | MenuItem::Separator => None,
    }
}

impl MenuItem {
    /// Expected default macOS accelerator, in `"Cmd+Q"` / `"Ctrl+Cmd+F"`
    /// notation; `None` for About, Show All and the separator.
    pub fn accelerator(self) -> (r: Option<&'static str>)
        ensures
            match r {
                Some(s) => accel(self) == Some(s@),
                None => accel(self) is None,
            },
    {
        match self {
            MenuItem::Hide => Some("Cmd+H"),
            MenuItem::HideOthers => Some("Cmd+Alt+H"),
            MenuItem::Quit => Some("Cmd+Q"),
            MenuItem::Cut => Some("Cmd+X"),
            MenuItem::Copy => Some("Cmd+C"),
            MenuItem::Paste => Some("Cmd+V"),
            MenuItem::SelectAll => Some("Cmd+A"),
            MenuItem::Fullscreen => Some("Ctrl+Cmd+F"),
            MenuItem::Minimize => Some("Cmd+M"),
            MenuItem::CloseWindow => Some("Cmd+W"),
            MenuItem::About | MenuItem::ShowAll | MenuItem::Separator => None,
        }
    }

    /// Whether this entry is a visual divider rather than an actionable item.
    pub fn is_separator(self) -> (r: bool)
        ensures
            r == (self == MenuItem::Separator),
    {
        match self {
            MenuItem::Separator => true,
            _ => false,
        }
    }
}

/// One top-level menu (a submenu of the menu bar).
pub struct MenuSection {
    /// Display title; on macOS the first section becomes the app menu.
    pub title: &'static str,
    pub items: Vec<MenuItem>,
}

/// The menu-bar layout: App / Edit / View / Window, titles and items.
pub open spec fn layout() -> Seq<(Seq<char>, Seq<MenuItem>)> {
    seq![
        ("TinyView"@, seq![
            MenuItem::About,
            MenuItem::Separator,
            MenuItem::Hide,
            MenuItem::HideOthers,
            MenuItem::ShowAll,
            MenuItem::Separator,
            MenuItem::Quit,
        ]),
        ("Edit"@, seq![MenuItem::Cut, MenuItem::Copy, MenuItem::Paste, MenuItem::SelectAll]),
        ("View"@, seq![MenuItem::Fullscreen]),
        ("Window"@, seq![MenuItem::Minimize, MenuItem::Separator, MenuItem::CloseWindow]),
    ]
}

/// The sections as values.
pub open spec fn sections_view(v: Seq<MenuSection>) -> Seq<(Seq<char>, Seq<MenuItem>)> {
    v.map_values(|s: MenuSection| (s.title@, s.items@))
}

/// The full menu-bar layout, in order; the first section is the
/// application menu.
pub fn menu_layout() -> (r: Vec<MenuSection>)
    ensures
        sections_view(r@) == layout(),
{
    let mut r: Vec<MenuSection> = Vec::new();
    r.push(
        MenuSection {
            title: "TinyView",
            items: vec![
                MenuItem::About,
                MenuItem::Separator,
                MenuItem::Hide,
                MenuItem::HideOthers,
                MenuItem::ShowAll,
                MenuItem::Separator,
                MenuItem::Quit,
            ],
        },
    );
    r.push(
        MenuSection {
            title: "Edit",
            items: vec![MenuItem::Cut, MenuItem::Copy, MenuItem::Paste, MenuItem::SelectAll],
        },
    );
    r.push(MenuSection { title: "View", items: vec![MenuItem::Fullscreen] });
    r.push(
        MenuSection {
            title: "Window",
            items: vec![MenuItem::Minimize, MenuItem::Separator, MenuItem::CloseWindow],
        },
    );
    assert(sections_view(r@) =~~= layout());
    r
}

/// The item at position `i` of section `s`.
pub open spec fn item_at(s: int, i: int) -> MenuItem {
    layout()[s].1[i]
}

/// `(s, i)` is a position in the layout.
pub open spec fn is_pos(s: int, i: int) -> bool {
    0 <= s < layout().len() && 0 <= i < layout()[s].1.len()
}

/// The layout holds `item`.
pub open spec fn layout_contains(item: MenuItem) -> bool {
    exists|s: int, i: int| is_pos(s, i) && item_at(s, i) == item
}

/// Every section has a non-empty title and at least one item.
pub proof fn law_sections_titled_and_non_empty()
    ensures
        forall|s: int| 0 <= s < layout().len() ==> (#[trigger] layout()[s]).0.len() > 0 && layout()[s].1.len() > 0,
{
    reveal_strlit("TinyView");
    reveal_strlit("Edit");
    reveal_strlit("View");
    reveal_strlit("Window");
}

/// The first section is the application menu, titled `TinyView`, and holds
/// Quit.
pub proof fn law_first_section_is_app_menu()
    ensures
        layout()[0].0 == "TinyView"@,
        layout()[0].1.contains(MenuItem::Quit),
{
    assert(layout()[0].1[6] == MenuItem::Quit);
}

/// No section starts or ends with a separator, and no two separators are
/// adjacent.
pub proof fn law_separators_never_dangling_or_doubled()
    ensures
        forall|s: int| 0 <= s < layout().len() ==> (#[trigger] layout()[s]).1[0] != MenuItem::Separator
            && layout()[s].1.last() != MenuItem::Separator,
        forall|s: int, i: int|
            is_pos(s, i) && is_pos(s, i + 1) ==> !(item_at(s, i) == MenuItem::Separator && #[trigger] item_at(
                s,
                i + 1,
            ) == MenuItem::Separator),
{
}

/// The separator carries no accelerator.
pub proof fn law_separator_has_no_accelerator()
    ensures
        accel(MenuItem::Separator) is None,
{
}

/// Every actionable item of the layout has an accelerator, except About and
/// Show All.
pub proof fn law_actionable_items_have_accelerators()
    ensures
        forall|s: int, i: int|
            is_pos(s, i) && item_at(s, i) != MenuItem::Separator ==> ((#[trigger] accel(item_at(s, i))) is Some
                <==> !(item_at(s, i) == MenuItem::About || item_at(s, i) == MenuItem::ShowAll)),
{
}

/// Two different actionable items never share an accelerator.
pub proof fn lemma_accel_injective(a: MenuItem, b: MenuItem)
    requires
        a != b,
        accel(a) is Some,
    ensures
        accel(a) != accel(b),
{
    reveal_strlit("Cmd+H");
    reveal_strlit("Cmd+Alt+H");
    reveal_strlit("Cmd+Q");
    reveal_strlit("Cmd+X");
    reveal_strlit("Cmd+C");
    reveal_strlit("Cmd+V");
    reveal_strlit("Cmd+A");
    reveal_strlit("Ctrl+Cmd+F");
    reveal_strlit("Cmd+M");
    reveal_strlit("Cmd+W");
    let x = accel(a)->0;
    if accel(b) == accel(a) {
        assert(x.len() == accel(b)->0.len());
        assert(x[x.len() - 1] == accel(b)->0[x.len() - 1]);
        assert(x[4] == accel(b)->0[4]);
    }
}

/// Each item occurs at most once in the layout, separators aside.
pub proof fn lemma_layout_items_distinct(s1: int, i1: int, s2: int, i2: int)
    requires
        is_pos(s1, i1),
        is_pos(s2, i2),
        s1 != s2 || i1 != i2,
        item_at(s1, i1) != MenuItem::Separator,
    ensures
        item_at(s1, i1) != item_at(s2, i2),
{
}

/// No two positions of the layout share an accelerator.
pub proof fn law_accelerators_unique()
    ensures
        forall|s1: int, i1: int, s2: int, i2: int|
            is_pos(s1, i1) && is_pos(s2, i2) && (s1 != s2 || i1 != i2) && (#[trigger] accel(
                item_at(s1, i1),
            )) is Some ==> accel(item_at(s1, i1)) != #[trigger] accel(item_at(s2, i2)),
{
    assert forall|s1: int, i1: int, s2: int, i2: int|
        is_pos(s1, i1) && is_pos(s2, i2) && (s1 != s2 || i1 != i2) && (#[trigger] accel(
            item_at(s1, i1),
        )) is Some implies accel(item_at(s1, i1)) != #[trigger] accel(item_at(s2, i2)) by {
        lemma_layout_items_distinct(s1, i1, s2, i2);
        lemma_accel_injective(item_at(s1, i1), item_at(s2, i2));
    }
}

/// The shortcuts users asked for are in the layout with their standard
/// accelerators: Quit, Full Screen, Close, Minimize, Copy, Paste.
pub proof fn law_required_shortcuts_present()
    ensures
        layout_contains(MenuItem::Quit) && accel(MenuItem::Quit) == Some("Cmd+Q"@),
        layout_contains(MenuItem::Fullscreen) && accel(MenuItem::Fullscreen) == Some("Ctrl+Cmd+F"@),
        layout_contains(MenuItem::CloseWindow) && accel(MenuItem::CloseWindow) == Some("Cmd+W"@),
        layout_contains(MenuItem::Minimize) && accel(MenuItem::Minimize) == Some("Cmd+M"@),
        layout_contains(MenuItem::Copy) && accel(MenuItem::Copy) == Some("Cmd+C"@),
        layout_contains(MenuItem::Paste) && accel(MenuItem::Paste) == Some("Cmd+V"@),
{
    assert(item_at(0, 6) == MenuItem::Quit);
    assert(item_at(2, 0) == MenuItem::Fullscreen);
    assert(item_at(3, 2) == MenuItem::CloseWindow);
    assert(item_at(3, 0) == MenuItem::Minimize);
    assert(item_at(1, 1) == MenuItem::Copy);
    assert(item_at(1, 2) == MenuItem::Paste);
}

} // verus!
