//! The decisions of the window and the application on navigation and launch.
use vstd::prelude::*;

verus! {

/// A page of the window's view stack.
#[derive(Clone, Copy, Debug, PartialEq, Eq, Structural)]
pub enum MainPage {
    Picker,
    History,
}

impl MainPage {
    /// The name of the page in the view stack.
    pub fn name(&self) -> (s: &'static str)
        ensures
            s@ == (match self {
                MainPage::Picker => "picker_page"@,
                MainPage::History => "history_page"@,
            }),
    {
        match self {
            MainPage::Picker => "picker_page",
            MainPage::History => "history_page",
        }
    }
}

/// The page shown for the state of the history toggle.
pub fn page_for_history_toggle(active: bool) -> (p: MainPage)
    ensures
        p == (if active {
            MainPage::History
        } else {
            MainPage::Picker
        }),
{
    if active {
        MainPage::History
    } else {
        MainPage::Picker
    }
}

/// What the application does with its window on activation.
#[derive(Clone, Copy, Debug, PartialEq, Eq, Structural)]
pub enum LaunchAction {
    /// Pick a colour from the screen first, then show the window.
    PickThenPresent,
    /// Show the window.
    Present,
}

/// The launch decision: a pick is asked for on the command line and the
/// window is the picker's own, or the window is just shown.
pub fn launch_action(launch_pick: bool, is_picker_window: bool) -> (a: LaunchAction)
    ensures
        a == (if launch_pick && is_picker_window {
            LaunchAction::PickThenPresent
        } else {
            LaunchAction::Present
        }),
{
    if launch_pick && is_picker_window {
        LaunchAction::PickThenPresent
    } else {
        LaunchAction::Present
    }
}

} // verus!
