use vstd::prelude::*;

verus! {

/// The reader's preferences.
#[derive(Clone, Copy, Debug, PartialEq, Eq, Structural)]
pub struct Settings {
    /// Show two-page spreads from right to left.
    pub right_to_left: bool,
    /// Show two pages side by side.
    pub double_page: bool,
    /// Show the page number in a corner.
    pub display_pages_number: bool,
    /// In double-page mode, show the first page (the cover) alone.
    pub display_first_page_in_single_mode: bool,
}

impl Default for Settings {
    /// Single pages, left to right, numbers shown, the cover alone.
    fn default() -> (r: Self)
        ensures
            r == (Settings {
                right_to_left: false,
                double_page: false,
                display_pages_number: true,
                display_first_page_in_single_mode: true,
            }),
    {
        Settings {
            right_to_left: false,
            double_page: false,
            display_pages_number: true,
            display_first_page_in_single_mode: true,
        }
    }
}

} // verus!
