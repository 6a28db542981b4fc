//! How wide the two panes of the dashboard and of the settings page are.
use vstd::prelude::*;
use crate::state::{DashboardPane, SettingsPane};

verus! {

/// The widths ratatui gives the two parts of a one-row area `total` cells wide, split
/// horizontally into `left_percent` and `right_percent` of it.
pub uninterp spec fn split_widths(total: u16, left_percent: u16, right_percent: u16) -> (u16, u16);

/// `ratatui::layout::Layout` from ratatui: a horizontal split of a `total`-wide row by two
/// percentage constraints, the widths of the two parts. ratatui's constraint solver decides
/// them (rounding included), so they are only named.
#[verifier::external_body]
fn split_width(total: u16, left_percent: u16, right_percent: u16) -> (r: (u16, u16))
    ensures
        r == split_widths(total, left_percent, right_percent),
{
    let area = ratatui::layout::Rect { x: 0, y: 0, width: total, height: 1 };
    let parts = ratatui::layout::Layout::default()
        .direction(ratatui::layout::Direction::Horizontal)
        .constraints([
            ratatui::layout::Constraint::Percentage(left_percent),
            ratatui::layout::Constraint::Percentage(right_percent),
        ])
        .split(area);
    (parts[0].width, parts[1].width)
}

/// The width of a dashboard pane: upcoming assignments take 55% of the row, courses 45%.
pub fn dashboard_pane_width(total_width: u16, pane: DashboardPane) -> (r: u16)
    ensures
        r == match pane {
            DashboardPane::Upcoming => split_widths(total_width, 55, 45).0,
            DashboardPane::Courses => split_widths(total_width, 55, 45).1,
        },
{
    let (upcoming, courses) = split_width(total_width, 55, 45);
    match pane {
        DashboardPane::Upcoming => upcoming,
        DashboardPane::Courses => courses,
    }
}

/// The width of a settings pane: key bindings take 52% of the row, configuration 48%.
pub fn settings_pane_width(total_width: u16, pane: SettingsPane) -> (r: u16)
    ensures
        r == match pane {
            SettingsPane::Keybinds => split_widths(total_width, 52, 48).0,
            SettingsPane::Config => split_widths(total_width, 52, 48).1,
        },
{
    let (keybinds, config) = split_width(total_width, 52, 48);
    match pane {
        SettingsPane::Keybinds => keybinds,
        SettingsPane::Config => config,
    }
}

} // verus!
