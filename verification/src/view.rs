//! The pages of the window.

use vstd::prelude::*;

verus! {

/// A page of the window.
#[derive(Debug, Clone, Copy, PartialEq, Eq, Structural)]
pub enum View {
    Main,
    Manage,
    Settings,
    Debug,
}

impl Default for View {
    fn default() -> (view: Self)
        ensures
            view == View::Main,
    {
        View::Main
    }
}

}
