//! The native menu bar. On macOS the menu is built from
//! [`crate::shortcuts::menu_layout`] with the platform's predefined items,
//! outside this library; elsewhere there is no menu.

use vstd::prelude::*;

verus! {

/// Zero-sized guard returned where no native menu is installed.
pub struct MenuGuard;

/// Platforms without a native menu keep their menu-less behavior: nothing
/// is installed.
pub fn install() -> (g: MenuGuard)
    ensures
        g == MenuGuard,
{
    MenuGuard
}

} // verus!
