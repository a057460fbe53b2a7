//! Plain state carried by the surrounding UI panels. The panels themselves
//! are drawn outside the engine; these types only hold what they need and
//! what the engine consumes (the toolbar's action request).

use vstd::prelude::*;

verus! {

/// One frame's structural requests from the floating toolbar.
pub struct ToolbarAction {
    /// Add a single card at the camera focus.
    pub add_node: bool,
    /// Add this many cards in a square grid; zero means none.
    pub add_batch: usize,
    /// Replace all cards with the default grid.
    pub reset: bool,
}

impl Default for ToolbarAction {
    /// An empty request.
    fn default() -> (d: Self)
        ensures
            !d.add_node,
            d.add_batch == 0,
            !d.reset,
    {
        ToolbarAction { add_node: false, add_batch: 0, reset: false }
    }
}

/// State of the page-tab bar along the window's top edge.
pub struct TopBarState {
    pub active_tab: usize,
    pub tabs: Vec<String>,
}

impl Default for TopBarState {
    /// Three sample page tabs, the first one active.
    fn default() -> (d: Self)
        ensures
            d.active_tab == 0,
            d.tabs@.len() == 3,
            d.tabs@[0]@ == "운동 습관 형성 앱 기획"@,
            d.tabs@[1]@ == "기술스택 선택"@,
            d.tabs@[2]@ == "신규서비스 런칭 전략"@,
    {
        let mut tabs: Vec<String> = Vec::new();
        tabs.push("운동 습관 형성 앱 기획".to_string());
        tabs.push("기술스택 선택".to_string());
        tabs.push("신규서비스 런칭 전략".to_string());
        TopBarState { active_tab: 0, tabs }
    }
}

/// State of the icon column along the window's left edge.
pub struct LeftTabState {
    pub active_section: usize,
}

impl Default for LeftTabState {
    fn default() -> (d: Self)
        ensures
            d.active_section == 0,
    {
        LeftTabState { active_section: 0 }
    }
}

/// State of the inspector panel on the window's right edge.
pub struct InspectorState {
    pub open: bool,
    /// Zero is the properties tab, one the transcript tab.
    pub active_tab: usize,
}

impl Default for InspectorState {
    /// Open, showing the transcript tab.
    fn default() -> (d: Self)
        ensures
            d.open,
            d.active_tab == 1,
    {
        InspectorState { open: true, active_tab: 1 }
    }
}

} // verus!
