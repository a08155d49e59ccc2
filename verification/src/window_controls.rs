use vstd::prelude::*;

verus! {

/// What toggling the main window did.
#[derive(Debug, Clone, Copy, PartialEq, Eq, Structural)]
pub enum WindowToggle {
    Hidden,
    Shown,
    Failed,
}

/// What toggling the window should do.
#[derive(Debug, Clone, Copy, PartialEq, Eq, Structural)]
pub enum ToggleAction {
    Hide,
    QuickLaunch,
}

/// A toggle hides the window when it is visible, not minimized and
/// focused, and brings it forward otherwise.
pub fn toggle_action(is_visible: bool, is_minimized: bool, is_focused: bool) -> (r: ToggleAction)
    ensures
        r == (if is_visible && !is_minimized && is_focused {
            ToggleAction::Hide
        } else {
            ToggleAction::QuickLaunch
        }),
{
    if is_visible && !is_minimized && is_focused {
        ToggleAction::Hide
    } else {
        ToggleAction::QuickLaunch
    }
}

/// The outcome of a toggle, given the action and whether hiding worked.
pub fn toggle_outcome(action: ToggleAction, hide_succeeded: bool) -> (r: WindowToggle)
    ensures
        r == match action {
            ToggleAction::Hide => if hide_succeeded { WindowToggle::Hidden } else { WindowToggle::Failed },
            ToggleAction::QuickLaunch => WindowToggle::Shown,
        },
{
    match action {
        ToggleAction::Hide => if hide_succeeded {
            WindowToggle::Hidden
        } else {
            WindowToggle::Failed
        },
        ToggleAction::QuickLaunch => WindowToggle::Shown,
    }
}

/// The main window is in the foreground when visible, focused and not
/// minimized.
pub fn is_foreground(visible: bool, focused: bool, minimized: bool) -> (r: bool)
    ensures
        r == (visible && focused && !minimized),
{
    visible && focused && !minimized
}

} // verus!
