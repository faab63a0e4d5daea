//! Configuration of the standard frame around every view: title, tabs,
//! key bindings and status bar.

use vstd::prelude::*;

verus! {

/// Configuration for a tab.
#[derive(Debug, Clone)]
pub struct TabConfig {
    pub name: String,
    /// Unique identifier for the tab.
    pub id: String,
}

/// One keyboard binding as displayed to the user.
#[derive(Debug, Clone)]
pub struct BindingConfig {
    pub key: String,
    pub description: String,
}

/// Configuration for the status bar: its resting text, and the text shown
/// while a modal is open.
#[derive(Debug, Clone)]
pub struct StatusBarConfig {
    pub default_text: String,
    pub modal_text: Option<String>,
}

impl Default for StatusBarConfig {
    fn default() -> (r: Self)
        ensures
            r.default_text@ == "Status: Ready | Press PgUp/PgDn to switch tabs | 'q' to quit"@,
            match r.modal_text {
                Some(t) => t@
                    == "Modal active - Use arrow keys to navigate, Enter to confirm, Esc to cancel"@,
                None => false,
            },
    {
        StatusBarConfig {
            default_text: "Status: Ready | Press PgUp/PgDn to switch tabs | 'q' to quit".to_owned(),
            modal_text: Some(
                "Modal active - Use arrow keys to navigate, Enter to confirm, Esc to cancel".to_owned(),
            ),
        }
    }
}

/// Configuration for the whole frame.
#[derive(Debug, Clone)]
pub struct BaseLayoutConfig {
    pub title: String,
    pub tabs: Vec<TabConfig>,
    pub global_bindings: Vec<BindingConfig>,
    pub status_bar: StatusBarConfig,
}

/// What rendering the frame leaves behind: the area where the view's own
/// content belongs.
#[derive(Debug, Clone, Copy, PartialEq, Eq, Structural)]
pub struct BaseLayoutResult {
    pub content_area: crate::tab_bar::Rect,
}

/// Whether the interface behind a modal is dimmed.
#[derive(Debug, Clone, Copy, PartialEq, Eq, Structural)]
pub struct DimmingContext {
    pub modal_visible: bool,
}

impl DimmingContext {
    /// A dimming context; dimmed exactly while a modal is visible.
    pub fn new(modal_visible: bool) -> (d: DimmingContext)
        ensures
            d.modal_visible == modal_visible,
    {
        DimmingContext { modal_visible }
    }
}

/// The frame around a view: its configuration, the active tab, and the
/// dimming state.
pub struct BaseLayout<'a> {
    pub config: &'a BaseLayoutConfig,
    pub active_tab_id: Option<&'a str>,
    pub dimming: &'a DimmingContext,
}

impl<'a> BaseLayout<'a> {
    /// A frame over the given configuration.
    pub fn new(
        config: &'a BaseLayoutConfig,
        active_tab_id: Option<&'a str>,
        dimming: &'a DimmingContext,
    ) -> (l: BaseLayout<'a>)
        ensures
            l.config == config,
            l.active_tab_id == active_tab_id,
            l.dimming == dimming,
    {
        BaseLayout { config, active_tab_id, dimming }
    }
}

} // verus!
