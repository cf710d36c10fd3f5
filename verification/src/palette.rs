//! The command palette: its table of commands and the state of the palette
//! while the user types a fuzzy query and picks a match.
use vstd::prelude::*;
use crate::ui_state::SortField;
use crate::text::{pop_char, push_char};

verus! {

/// Most matches shown at once.
pub const MAX_DISPLAY: usize = 10;

/// The number of matches shown at once.
pub fn max_display() -> (n: usize)
    ensures
        n == MAX_DISPLAY,
{
    MAX_DISPLAY
}

/// The main panels of the application.
#[derive(Debug, Clone, Copy, PartialEq, Eq, Structural)]
pub enum AppMode {
    ProcessList,
    PortMap,
    UsbAssistant,
    MonitorPanel,
    DockerPanel,
    Agent,
}

/// How the process list is laid out.
#[derive(Debug, Clone, Copy, PartialEq, Eq, Structural)]
pub enum ProcessViewMode {
    List,
    Tree,
    AppGroup,
}

/// The tabs of the process inspector.
#[derive(Debug, Clone, Copy, PartialEq, Eq, Structural)]
pub enum InspectionTab {
    Summary,
    Env,
    Network,
    Dlls,
    Handles,
    Memory,
}

/// What a palette command does.
#[derive(Debug, Clone, Copy, PartialEq, Eq, Structural)]
pub enum CommandAction {
    Quit,
    SwitchPanel(AppMode),
    SetProcessViewMode(ProcessViewMode),
    SortBy(SortField),
    SwitchInspectionTab(InspectionTab),
    RefreshInspector,
    EnterDetail,
    KillCursor,
    ForceKillCursor,
    SelectAllVisible,
    CycleTheme,
    SetTheme(usize),
    ToggleSidebar,
    ToggleHelp,
    ToggleAlertPopup,
    ToggleRecording,
    DismissCrashes,
    DockerStartEvents,
    DockerStopContainer,
    DockerRestartContainer,
}

/// One palette command: a stable id, the label the query is matched
/// against, its group, a key hint, and its action.
#[derive(Debug)]
pub struct CommandItem {
    pub id: &'static str,
    pub label: &'static str,
    pub category: &'static str,
    pub hint: &'static str,
    pub action: CommandAction,
}

/// The mathematical value of a [`CommandItem`].
pub ghost struct ItemView {
    pub id: Seq<char>,
    pub label: Seq<char>,
    pub category: Seq<char>,
    pub hint: Seq<char>,
    pub action: CommandAction,
}

impl View for CommandItem {
    type V = ItemView;

    open spec fn view(&self) -> ItemView {
        ItemView { id: self.id@, label: self.label@, category: self.category@, hint: self.hint@, action: self.action }
    }
}

pub open spec fn iv(id: Seq<char>, label: Seq<char>, category: Seq<char>, hint: Seq<char>, action: CommandAction) -> ItemView {
    ItemView { id, label, category, hint, action }
}

/// The palette's commands, in order.
pub open spec fn default_item_views() -> Seq<ItemView> {
    seq![
        iv("switch_to_process_list"@, "Switch to Process List"@, "Panel"@, "1"@, CommandAction::SwitchPanel(AppMode::ProcessList)),
        iv("switch_to_process_tree"@, "Switch to Process Tree"@, "Panel"@, "2"@, CommandAction::SetProcessViewMode(ProcessViewMode::Tree)),
        iv("switch_to_app_group"@, "Switch to App Group"@, "Panel"@, "v"@, CommandAction::SetProcessViewMode(ProcessViewMode::AppGroup)),
        iv("switch_to_port_panel"@, "Switch to Port Panel"@, "Panel"@, "3"@, CommandAction::SwitchPanel(AppMode::PortMap)),
        iv("switch_to_usb_panel"@, "Switch to USB Assistant"@, "Panel"@, "4"@, CommandAction::SwitchPanel(AppMode::UsbAssistant)),
        iv("switch_to_monitor_panel"@, "Switch to Monitor Panel"@, "Panel"@, "5"@, CommandAction::SwitchPanel(AppMode::MonitorPanel)),
        iv("switch_to_docker_panel"@, "Switch to Docker Panel"@, "Panel"@, "6"@, CommandAction::SwitchPanel(AppMode::DockerPanel)),
        iv("switch_to_agent_panel"@, "Switch to AI Agent Panel"@, "Panel"@, "Ctrl+P"@, CommandAction::SwitchPanel(AppMode::Agent)),
        iv("switch_to_process_list_view"@, "Process List View (flat)"@, "Panel"@, "v"@, CommandAction::SetProcessViewMode(ProcessViewMode::List)),
        iv("sort_by_cpu"@, "Sort by CPU"@, "Sort"@, "←→"@, CommandAction::SortBy(SortField::Cpu)),
        iv("sort_by_memory"@, "Sort by Memory"@, "Sort"@, "←→"@, CommandAction::SortBy(SortField::Memory)),
        iv("sort_by_pid"@, "Sort by PID"@, "Sort"@, "←→"@, CommandAction::SortBy(SortField::Pid)),
        iv("sort_by_name"@, "Sort by Name"@, "Sort"@, "←→"@, CommandAction::SortBy(SortField::Name)),
        iv("sort_by_security"@, "Sort by Security Score"@, "Sort"@, "S"@, CommandAction::SortBy(SortField::Security)),
        iv("sort_by_disk_read"@, "Sort by Disk Read"@, "Sort"@, "←→"@, CommandAction::SortBy(SortField::DiskRead)),
        iv("sort_by_disk_write"@, "Sort by Disk Write"@, "Sort"@, "←→"@, CommandAction::SortBy(SortField::DiskWrite)),
        iv("sort_by_net_sent"@, "Sort by Net Sent"@, "Sort"@, "←→"@, CommandAction::SortBy(SortField::NetSent)),
        iv("sort_by_net_recv"@, "Sort by Net Recv"@, "Sort"@, "←→"@, CommandAction::SortBy(SortField::NetRecv)),
        iv("inspector_tab_summary"@, "Inspector Tab: Summary"@, "Inspector"@, "Tab"@, CommandAction::SwitchInspectionTab(InspectionTab::Summary)),
        iv("inspector_tab_env"@, "Inspector Tab: Env"@, "Inspector"@, "Tab"@, CommandAction::SwitchInspectionTab(InspectionTab::Env)),
        iv("inspector_tab_network"@, "Inspector Tab: Network"@, "Inspector"@, "Tab"@, CommandAction::SwitchInspectionTab(InspectionTab::Network)),
        iv("inspector_tab_dlls"@, "Inspector Tab: DLLs"@, "Inspector"@, "Tab"@, CommandAction::SwitchInspectionTab(InspectionTab::Dlls)),
        iv("inspector_tab_handles"@, "Inspector Tab: Handles"@, "Inspector"@, "Tab"@, CommandAction::SwitchInspectionTab(InspectionTab::Handles)),
        iv("inspector_tab_memory"@, "Inspector Tab: Memory"@, "Inspector"@, "Tab"@, CommandAction::SwitchInspectionTab(InspectionTab::Memory)),
        iv("inspector_refresh"@, "Inspector: Force Refresh (F5)"@, "Inspector"@, "F5"@, CommandAction::RefreshInspector),
        iv("enter_detail"@, "Open Process Detail (Enter)"@, "Action"@, "Enter"@, CommandAction::EnterDetail),
        iv("kill_cursor"@, "Kill Cursor Process"@, "Action"@, "k"@, CommandAction::KillCursor),
        iv("force_kill_cursor"@, "Force Kill Cursor (with children)"@, "Action"@, "K"@, CommandAction::ForceKillCursor),
        iv("select_all_visible"@, "Select All Visible Processes"@, "Action"@, "a"@, CommandAction::SelectAllVisible),
        iv("cycle_theme"@, "Cycle Theme"@, "Theme"@, "t"@, CommandAction::CycleTheme),
        iv("theme_0"@, "Theme: Dark"@, "Theme"@, "t"@, CommandAction::SetTheme(0)),
        iv("theme_1"@, "Theme: Catppuccin"@, "Theme"@, "t"@, CommandAction::SetTheme(1)),
        iv("theme_2"@, "Theme: Dracula"@, "Theme"@, "t"@, CommandAction::SetTheme(2)),
        iv("theme_3"@, "Theme: Gruvbox"@, "Theme"@, "t"@, CommandAction::SetTheme(3)),
        iv("theme_4"@, "Theme: One Dark"@, "Theme"@, "t"@, CommandAction::SetTheme(4)),
        iv("theme_5"@, "Theme: Nord"@, "Theme"@, "t"@, CommandAction::SetTheme(5)),
        iv("theme_6"@, "Theme: Solarized Dark"@, "Theme"@, "t"@, CommandAction::SetTheme(6)),
        iv("theme_7"@, "Theme: Tokyo Night"@, "Theme"@, "t"@, CommandAction::SetTheme(7)),
        iv("theme_8"@, "Theme: Gruvbox Light"@, "Theme"@, "t"@, CommandAction::SetTheme(8)),
        iv("theme_9"@, "Theme: Light"@, "Theme"@, "t"@, CommandAction::SetTheme(9)),
        iv("toggle_sidebar"@, "Toggle Sidebar Expand"@, "Global"@, "c"@, CommandAction::ToggleSidebar),
        iv("toggle_help"@, "Toggle Help Page"@, "Global"@, "?"@, CommandAction::ToggleHelp),
        iv("toggle_alert_popup"@, "Toggle Alert Popup"@, "Global"@, "A"@, CommandAction::ToggleAlertPopup),
        iv("toggle_recording"@, "Toggle VT100 Recording"@, "Global"@, "R"@, CommandAction::ToggleRecording),
        iv("dismiss_crashes"@, "Dismiss Worker Crash Banner"@, "Global"@, "D"@, CommandAction::DismissCrashes),
        iv("docker_start_events"@, "Docker: Start Event Stream"@, "Docker"@, "a"@, CommandAction::DockerStartEvents),
        iv("docker_stop_container"@, "Docker: Stop Selected Container"@, "Docker"@, "s"@, CommandAction::DockerStopContainer),
        iv("docker_restart_container"@, "Docker: Restart Selected Container"@, "Docker"@, "Shift+R"@, CommandAction::DockerRestartContainer),
        iv("quit"@, "Quit proc"@, "Global"@, "q"@, CommandAction::Quit)
    ]
}

/// The views of a list of commands.
pub open spec fn item_views(v: Seq<CommandItem>) -> Seq<ItemView> {
    v.map_values(|i: CommandItem| i@)
}

fn item(id: &'static str, label: &'static str, category: &'static str, hint: &'static str, action: CommandAction) -> (r: CommandItem)
    ensures
        r@ == iv(id@, label@, category@, hint@, action),
{
    CommandItem { id, label, category, hint, action }
}

/// The palette's commands.
pub fn default_items() -> (r: Vec<CommandItem>)
    ensures
        item_views(r@) == default_item_views(),
{
    let mut v: Vec<CommandItem> = Vec::new();
    v.push(item("switch_to_process_list", "Switch to Process List", "Panel", "1", CommandAction::SwitchPanel(AppMode::ProcessList)));
    v.push(item("switch_to_process_tree", "Switch to Process Tree", "Panel", "2", CommandAction::SetProcessViewMode(ProcessViewMode::Tree)));
    v.push(item("switch_to_app_group", "Switch to App Group", "Panel", "v", CommandAction::SetProcessViewMode(ProcessViewMode::AppGroup)));
    v.push(item("switch_to_port_panel", "Switch to Port Panel", "Panel", "3", CommandAction::SwitchPanel(AppMode::PortMap)));
    v.push(item("switch_to_usb_panel", "Switch to USB Assistant", "Panel", "4", CommandAction::SwitchPanel(AppMode::UsbAssistant)));
    v.push(item("switch_to_monitor_panel", "Switch to Monitor Panel", "Panel", "5", CommandAction::SwitchPanel(AppMode::MonitorPanel)));
    v.push(item("switch_to_docker_panel", "Switch to Docker Panel", "Panel", "6", CommandAction::SwitchPanel(AppMode::DockerPanel)));
    v.push(item("switch_to_agent_panel", "Switch to AI Agent Panel", "Panel", "Ctrl+P", CommandAction::SwitchPanel(AppMode::Agent)));
    v.push(item("switch_to_process_list_view", "Process List View (flat)", "Panel", "v", CommandAction::SetProcessViewMode(ProcessViewMode::List)));
    v.push(item("sort_by_cpu", "Sort by CPU", "Sort", "←→", CommandAction::SortBy(SortField::Cpu)));
    v.push(item("sort_by_memory", "Sort by Memory", "Sort", "←→", CommandAction::SortBy(SortField::Memory)));
    v.push(item("sort_by_pid", "Sort by PID", "Sort", "←→", CommandAction::SortBy(SortField::Pid)));
    v.push(item("sort_by_name", "Sort by Name", "Sort", "←→", CommandAction::SortBy(SortField::Name)));
    v.push(item("sort_by_security", "Sort by Security Score", "Sort", "S", CommandAction::SortBy(SortField::Security)));
    v.push(item("sort_by_disk_read", "Sort by Disk Read", "Sort", "←→", CommandAction::SortBy(SortField::DiskRead)));
    v.push(item("sort_by_disk_write", "Sort by Disk Write", "Sort", "←→", CommandAction::SortBy(SortField::DiskWrite)));
    v.push(item("sort_by_net_sent", "Sort by Net Sent", "Sort", "←→", CommandAction::SortBy(SortField::NetSent)));
    v.push(item("sort_by_net_recv", "Sort by Net Recv", "Sort", "←→", CommandAction::SortBy(SortField::NetRecv)));
    v.push(item("inspector_tab_summary", "Inspector Tab: Summary", "Inspector", "Tab", CommandAction::SwitchInspectionTab(InspectionTab::Summary)));
    v.push(item("inspector_tab_env", "Inspector Tab: Env", "Inspector", "Tab", CommandAction::SwitchInspectionTab(InspectionTab::Env)));
    v.push(item("inspector_tab_network", "Inspector Tab: Network", "Inspector", "Tab", CommandAction::SwitchInspectionTab(InspectionTab::Network)));
    v.push(item("inspector_tab_dlls", "Inspector Tab: DLLs", "Inspector", "Tab", CommandAction::SwitchInspectionTab(InspectionTab::Dlls)));
    v.push(item("inspector_tab_handles", "Inspector Tab: Handles", "Inspector", "Tab", CommandAction::SwitchInspectionTab(InspectionTab::Handles)));
    v.push(item("inspector_tab_memory", "Inspector Tab: Memory", "Inspector", "Tab", CommandAction::SwitchInspectionTab(InspectionTab::Memory)));
    v.push(item("inspector_refresh", "Inspector: Force Refresh (F5)", "Inspector", "F5", CommandAction::RefreshInspector));
    v.push(item("enter_detail", "Open Process Detail (Enter)", "Action", "Enter", CommandAction::EnterDetail));
    v.push(item("kill_cursor", "Kill Cursor Process", "Action", "k", CommandAction::KillCursor));
    v.push(item("force_kill_cursor", "Force Kill Cursor (with children)", "Action", "K", CommandAction::ForceKillCursor));
    v.push(item("select_all_visible", "Select All Visible Processes", "Action", "a", CommandAction::SelectAllVisible));
    v.push(item("cycle_theme", "Cycle Theme", "Theme", "t", CommandAction::CycleTheme));
    v.push(item("theme_0", "Theme: Dark", "Theme", "t", CommandAction::SetTheme(0)));
    v.push(item("theme_1", "Theme: Catppuccin", "Theme", "t", CommandAction::SetTheme(1)));
    v.push(item("theme_2", "Theme: Dracula", "Theme", "t", CommandAction::SetTheme(2)));
    v.push(item("theme_3", "Theme: Gruvbox", "Theme", "t", CommandAction::SetTheme(3)));
    v.push(item("theme_4", "Theme: One Dark", "Theme", "t", CommandAction::SetTheme(4)));
    v.push(item("theme_5", "Theme: Nord", "Theme", "t", CommandAction::SetTheme(5)));
    v.push(item("theme_6", "Theme: Solarized Dark", "Theme", "t", CommandAction::SetTheme(6)));
    v.push(item("theme_7", "Theme: Tokyo Night", "Theme", "t", CommandAction::SetTheme(7)));
    v.push(item("theme_8", "Theme: Gruvbox Light", "Theme", "t", CommandAction::SetTheme(8)));
    v.push(item("theme_9", "Theme: Light", "Theme", "t", CommandAction::SetTheme(9)));
    v.push(item("toggle_sidebar", "Toggle Sidebar Expand", "Global", "c", CommandAction::ToggleSidebar));
    v.push(item("toggle_help", "Toggle Help Page", "Global", "?", CommandAction::ToggleHelp));
    v.push(item("toggle_alert_popup", "Toggle Alert Popup", "Global", "A", CommandAction::ToggleAlertPopup));
    v.push(item("toggle_recording", "Toggle VT100 Recording", "Global", "R", CommandAction::ToggleRecording));
    v.push(item("dismiss_crashes", "Dismiss Worker Crash Banner", "Global", "D", CommandAction::DismissCrashes));
    v.push(item("docker_start_events", "Docker: Start Event Stream", "Docker", "a", CommandAction::DockerStartEvents));
    v.push(item("docker_stop_container", "Docker: Stop Selected Container", "Docker", "s", CommandAction::DockerStopContainer));
    v.push(item("docker_restart_container", "Docker: Restart Selected Container", "Docker", "Shift+R", CommandAction::DockerRestartContainer));
    v.push(item("quit", "Quit proc", "Global", "q", CommandAction::Quit));
    assert(item_views(v@) =~= default_item_views());
    v
}


// ---------------------------------------------------------------------------
// Fuzzy matching
// ---------------------------------------------------------------------------
/// The fuzzy-match score of `label` under the query `query` (`None` when
/// it does not match), as nucleo computes it.
pub uninterp spec fn fuzzy_score(query: Seq<char>, label: Seq<char>) -> Option<u32>;

/// Calls nucleo: parses `query` as a pattern (`Pattern::parse`, smart case
/// and smart normalization) and scores `label` with it (`Pattern::score`,
/// default matcher configuration).  Claims only that the score depends on
/// the two texts alone.
#[verifier::external_body]
fn nucleo_score(query: &str, label: &str) -> (r: Option<u32>)
    ensures
        r == fuzzy_score(query@, label@),
{
    let pattern = nucleo::pattern::Pattern::parse(
        query,
        nucleo::pattern::CaseMatching::Smart,
        nucleo::pattern::Normalization::Smart,
    );
    let mut matcher = nucleo::Matcher::new(nucleo::Config::DEFAULT);
    let mut buf: Vec<char> = Vec::new();
    pattern.score(nucleo::Utf32Str::new(label, &mut buf), &mut matcher)
}

/// The scores of the commands' labels under `query`.
pub open spec fn label_scores(items: Seq<ItemView>, query: Seq<char>) -> Seq<Option<u32>> {
    items.map_values(|i: ItemView| fuzzy_score(query, i.label))
}

pub open spec fn score_of(scores: Seq<Option<u32>>, i: usize) -> u32 {
    match scores[i as int] {
        Some(s) => s,
        None => 0,
    }
}

/// `x` comes before `y`: a higher score, or the same score and an earlier
/// command.
pub open spec fn ranks_before(scores: Seq<Option<u32>>, x: usize, y: usize) -> bool {
    score_of(scores, x) > score_of(scores, y) || (score_of(scores, x) == score_of(scores, y) && x < y)
}

/// `r` lists the matching commands among the first `n`, each once, best
/// score first and, among equal scores, in table order.
pub open spec fn ranked_upto(r: Seq<usize>, scores: Seq<Option<u32>>, n: int) -> bool {
    &&& r.no_duplicates()
    &&& forall|k: int| 0 <= k < r.len() ==> #[trigger] r[k] < n && (scores[r[k] as int] is Some)
    &&& forall|i: int| 0 <= i < n && (#[trigger] scores[i] is Some) ==> r.contains(i as usize)
    &&& forall|a: int, b: int| 0 <= a < b < r.len() ==> ranks_before(scores, #[trigger] r[a], #[trigger] r[b])
}

/// The matches for a query: every command, in order, for the empty query;
/// otherwise the matching commands ranked.
pub open spec fn matches_for(r: Seq<usize>, items: Seq<ItemView>, query: Seq<char>) -> bool {
    if query.len() == 0 {
        r == Seq::new(items.len(), |i: int| i as usize)
    } else {
        ranked_upto(r, label_scores(items, query), items.len() as int)
    }
}

fn all_indices(n: usize) -> (r: Vec<usize>)
    ensures
        r@ == Seq::new(n as nat, |i: int| i as usize),
{
    let mut r: Vec<usize> = Vec::new();
    let mut i: usize = 0;
    while i < n
        invariant
            i <= n,
            r@ == Seq::new(i as nat, |k: int| k as usize),
        decreases n - i,
    {
        r.push(i);
        assert(r@ =~= Seq::new((i + 1) as nat, |k: int| k as usize));
        i += 1;
    }
    r
}

proof fn lemma_insert_ranked(r0: Seq<usize>, sc0: Seq<u32>, scores: Seq<Option<u32>>, p: int, i: usize, s: u32)
    requires
        ranked_upto(r0, scores, i as int),
        sc0.len() == r0.len(),
        forall|k: int| 0 <= k < r0.len() ==> #[trigger] sc0[k] == score_of(scores, r0[k]),
        0 <= p <= r0.len(),
        forall|k: int| 0 <= k < p ==> #[trigger] sc0[k] >= s,
        p < r0.len() ==> sc0[p] < s,
        i < scores.len(),
        scores[i as int] == Some(s),
    ensures
        ranked_upto(r0.insert(p, i), scores, i + 1),
        forall|k: int| 0 <= k < r0.len() + 1 ==> #[trigger] sc0.insert(p, s)[k] == score_of(scores, r0.insert(p, i)[k]),
{
    let r = r0.insert(p, i);
    let sc = sc0.insert(p, s);
    assert(score_of(scores, i) == s);
    assert forall|k: int| 0 <= k < r.len() implies #[trigger] sc[k] == score_of(scores, r[k]) by {
        if k < p {
            assert(r[k] == r0[k] && sc[k] == sc0[k]);
        } else if k > p {
            assert(r[k] == r0[k - 1] && sc[k] == sc0[k - 1]);
        }
    }
    assert forall|k: int| 0 <= k < r.len() implies #[trigger] r[k] < i + 1 && (scores[r[k] as int] is Some) by {
        if k < p {
            assert(r[k] == r0[k]);
        } else if k > p {
            assert(r[k] == r0[k - 1]);
        }
    }
    assert forall|j: int| 0 <= j < i + 1 && (#[trigger] scores[j] is Some) implies r.contains(j as usize) by {
        if j < i {
            assert(r0.contains(j as usize));
            let k = choose|k: int| 0 <= k < r0.len() && r0[k] == j as usize;
            if k < p {
                assert(r[k] == j as usize);
            } else {
                assert(r[k + 1] == j as usize);
            }
        } else {
            assert(r[p] == i);
        }
    }
    assert forall|a: int, b: int| 0 <= a < b < r.len() implies ranks_before(scores, #[trigger] r[a], #[trigger] r[b]) by {
        if a < p && b < p {
            assert(r[a] == r0[a] && r[b] == r0[b]);
        } else if a < p && b == p {
            assert(r[a] == r0[a]);
            assert(sc0[a] >= s);
            assert(r0[a] < i);
        } else if a < p && b > p {
            assert(r[a] == r0[a] && r[b] == r0[b - 1]);
        } else if a == p {
            assert(r[b] == r0[b - 1]);
            if b - 1 > p {
                assert(ranks_before(scores, r0[p], r0[b - 1]));
            }
            assert(sc0[p] < s);
        } else {
            assert(r[a] == r0[a - 1] && r[b] == r0[b - 1]);
        }
    }
    assert forall|a: int, b: int| 0 <= a < r.len() && 0 <= b < r.len() && a != b implies r[a] != r[b] by {
        if a != p && b != p {
            let a0 = if a < p { a } else { a - 1 };
            let b0 = if b < p { b } else { b - 1 };
            assert(r[a] == r0[a0] && r[b] == r0[b0]);
        } else if a == p {
            let b0 = if b < p { b } else { b - 1 };
            assert(r[b] == r0[b0]);
        } else {
            let a0 = if a < p { a } else { a - 1 };
            assert(r[a] == r0[a0]);
        }
    }
}

/// Ranks the commands that match `query`.
fn rank(items: &Vec<CommandItem>, query: &str) -> (r: Vec<usize>)
    ensures
        ranked_upto(r@, label_scores(item_views(items@), query@), items@.len() as int),
{
    let ghost scores = label_scores(item_views(items@), query@);
    let mut r: Vec<usize> = Vec::new();
    let mut sc: Vec<u32> = Vec::new();
    let mut i: usize = 0;
    while i < items.len()
        invariant
            i <= items.len(),
            scores == label_scores(item_views(items@), query@),
            scores.len() == items@.len(),
            sc@.len() == r@.len(),
            forall|k: int| 0 <= k < r@.len() ==> #[trigger] sc@[k] == score_of(scores, r@[k]),
            ranked_upto(r@, scores, i as int),
        decreases items.len() - i,
    {
        let o = nucleo_score(query, items[i].label);
        assert(o == scores[i as int]);
        match o {
            Some(s) => {
                let mut p: usize = 0;
                while p < r.len() && sc[p] >= s
                    invariant
                        p <= r@.len(),
                        sc@.len() == r@.len(),
                        forall|k: int| 0 <= k < p ==> #[trigger] sc@[k] >= s,
                    decreases r@.len() - p,
                {
                    p += 1;
                }
                let ghost r0 = r@;
                let ghost sc0 = sc@;
                r.insert(p, i);
                sc.insert(p, s);
                proof {
                    lemma_insert_ranked(r0, sc0, scores, p as int, i, s);
                }
            },
            None => {
                proof {
                    assert forall|j: int| 0 <= j < i + 1 && (#[trigger] scores[j] is Some) implies r@.contains(j as usize) by {
                        assert(j < i);
                    }
                }
            },
        }
        i += 1;
    }
    r
}


// ---------------------------------------------------------------------------
// The palette
// ---------------------------------------------------------------------------
/// What a key press asks of the palette.
#[derive(Debug)]
pub enum PaletteHandleResult {
    /// Stay open.
    Stay,
    /// Close without running anything.
    Close,
    /// Close and run the action.
    Execute(CommandAction),
}

/// A key press, as far as the palette reads it.
#[derive(Debug, Clone, Copy, PartialEq, Eq, Structural)]
pub enum PaletteKey {
    Esc,
    Enter,
    Up,
    Down,
    Backspace,
    /// Ctrl+U: clear the input.
    ClearInput,
    Char(char),
    Other,
}

/// The palette's state.
pub ghost struct PaletteView {
    pub input: Seq<char>,
    pub matched: Seq<usize>,
    pub selected: usize,
}

/// The command palette: the typed query, the commands, the ranked matches
/// and the selected match.
pub struct CommandPalette {
    input: String,
    items: Vec<CommandItem>,
    matched: Vec<usize>,
    selected: usize,
}

impl View for CommandPalette {
    type V = PaletteView;

    closed spec fn view(&self) -> PaletteView {
        PaletteView { input: self.input@, matched: self.matched@, selected: self.selected }
    }
}

/// The palette state is consistent: the matches are those of the input,
/// and a selection points into a non-empty match list.
pub open spec fn palette_ok(v: PaletteView) -> bool {
    &&& matches_for(v.matched, default_item_views(), v.input)
    &&& v.matched.len() > 0 ==> v.selected < v.matched.len()
}

/// The selection moved into the match list when it fell past its end.
pub open spec fn clamped(selected: usize, matched: Seq<usize>) -> usize {
    if matched.len() > 0 && selected >= matched.len() {
        (matched.len() - 1) as usize
    } else {
        selected
    }
}

impl CommandPalette {
    /// The representation invariant.
    pub closed spec fn wf(&self) -> bool {
        &&& item_views(self.items@) == default_item_views()
        &&& palette_ok(self@)
    }

    /// A well-formed palette's matches are those of its input, and its
    /// selection points into them when there are any.
    pub proof fn lemma_wf_palette_ok(&self)
        requires
            self.wf(),
        ensures
            palette_ok(self@),
    {
    }

    /// A palette with an empty query: every command matches, the first is
    /// selected.
    pub fn new() -> (p: CommandPalette)
        ensures
            p.wf(),
            p@.input.len() == 0,
            p@.matched == Seq::new(default_item_views().len(), |i: int| i as usize),
            p@.selected == 0,
    {
        let items = default_items();
        let n = items.len();
        let matched = all_indices(n);
        CommandPalette { input: String::new(), items, matched, selected: 0 }
    }

    /// Back to the empty query with the first command selected.
    pub fn reset(&mut self)
        requires
            old(self).wf(),
        ensures
            final(self).wf(),
            final(self)@.input.len() == 0,
            final(self)@.matched == Seq::new(default_item_views().len(), |i: int| i as usize),
            final(self)@.selected == 0,
    {
        self.input = String::new();
        self.matched = all_indices(self.items.len());
        self.selected = 0;
    }

    /// The typed query.
    pub fn input(&self) -> (s: &str)
        ensures
            s@ == self@.input,
    {
        self.input.as_str()
    }

    /// The commands.
    pub fn items(&self) -> (r: &[CommandItem])
        requires
            self.wf(),
        ensures
            item_views(r@) == default_item_views(),
    {
        self.items.as_slice()
    }

    /// The positions of the matching commands, best first.
    pub fn matched_indices(&self) -> (r: &[usize])
        ensures
            r@ == self@.matched,
    {
        self.matched.as_slice()
    }

    /// The position of the selection in the match list.
    pub fn selected(&self) -> (i: usize)
        ensures
            i == self@.selected,
    {
        self.selected
    }

    /// The selected command, if the selection points at a match.
    pub fn selected_item(&self) -> (r: Option<&CommandItem>)
        requires
            self.wf(),
        ensures
            match r {
                Some(it) => self@.selected < self@.matched.len()
                    && it@ == default_item_views()[self@.matched[self@.selected as int] as int],
                None => self@.selected >= self@.matched.len(),
            },
    {
        if self.selected < self.matched.len() {
            let i = self.matched[self.selected];
            proof {
                if self@.input.len() == 0 {
                    assert(self@.matched[self@.selected as int] == self@.selected);
                }
            }
            assert(item_views(self.items@)[i as int] == self.items@[i as int]@);
            Some(&self.items[i])
        } else {
            None
        }
    }

    fn recompute_matches(&mut self)
        requires
            item_views(old(self).items@) == default_item_views(),
        ensures
            item_views(final(self).items@) == default_item_views(),
            final(self)@.input == old(self)@.input,
            final(self)@.selected == old(self)@.selected,
            matches_for(final(self)@.matched, default_item_views(), final(self)@.input),
    {
        if self.input.unicode_len() == 0 {
            self.matched = all_indices(self.items.len());
        } else {
            self.matched = rank(&self.items, self.input.as_str());
        }
    }

    /// Applies a key.  Esc closes; Enter runs the selected command (closes
    /// when nothing is selected); Up and Down move the selection within the
    /// matches; Backspace drops the last character of the query, a
    /// character is appended, Ctrl+U clears it, and the matches follow the
    /// query with the selection clamped into them.
    pub fn handle_key(&mut self, key: PaletteKey) -> (r: PaletteHandleResult)
        requires
            old(self).wf(),
        ensures
            final(self).wf(),
            palette_ok(final(self)@),
            match key {
                PaletteKey::Esc => r is Close && final(self)@ == old(self)@,
                PaletteKey::Enter => final(self)@ == old(self)@ && if old(self)@.selected < old(self)@.matched.len() {
                    r == PaletteHandleResult::Execute(
                        default_item_views()[old(self)@.matched[old(self)@.selected as int] as int].action,
                    )
                } else {
                    r is Close
                },
                PaletteKey::Up => r is Stay && final(self)@ == (PaletteView {
                    selected: if old(self)@.selected > 0 { (old(self)@.selected - 1) as usize } else { 0 },
                    ..old(self)@
                }),
                PaletteKey::Down => r is Stay && final(self)@ == (PaletteView {
                    selected: if old(self)@.selected + 1 < old(self)@.matched.len() {
                        (old(self)@.selected + 1) as usize
                    } else {
                        old(self)@.selected
                    },
                    ..old(self)@
                }),
                PaletteKey::Backspace => r is Stay && if old(self)@.input.len() > 0 {
                    final(self)@.input == old(self)@.input.drop_last()
                        && final(self)@.selected == clamped(old(self)@.selected, final(self)@.matched)
                } else {
                    final(self)@ == old(self)@
                },
                PaletteKey::ClearInput => r is Stay && final(self)@.input.len() == 0 && final(self)@.selected == 0
                    && final(self)@.matched == Seq::new(default_item_views().len(), |i: int| i as usize),
                PaletteKey::Char(c) => r is Stay && final(self)@.input == old(self)@.input.push(c)
                    && final(self)@.selected == clamped(old(self)@.selected, final(self)@.matched),
                PaletteKey::Other => r is Stay && final(self)@ == old(self)@,
            },
    {
        match key {
            PaletteKey::Esc => PaletteHandleResult::Close,
            PaletteKey::Enter => {
                match self.selected_item() {
                    Some(item) => PaletteHandleResult::Execute(item.action),
                    None => PaletteHandleResult::Close,
                }
            },
            PaletteKey::Up => {
                if self.selected > 0 {
                    self.selected = self.selected - 1;
                }
                PaletteHandleResult::Stay
            },
            PaletteKey::Down => {
                if self.selected < self.matched.len() && self.selected + 1 < self.matched.len() {
                    self.selected = self.selected + 1;
                }
                PaletteHandleResult::Stay
            },
            PaletteKey::Backspace => {
                if self.input.unicode_len() > 0 {
                    pop_char(&mut self.input);
                    self.recompute_matches();
                    self.clamp_selected();
                }
                PaletteHandleResult::Stay
            },
            PaletteKey::ClearInput => {
                self.input = String::new();
                self.matched = all_indices(self.items.len());
                self.selected = 0;
                PaletteHandleResult::Stay
            },
            PaletteKey::Char(c) => {
                push_char(&mut self.input, c);
                self.recompute_matches();
                self.clamp_selected();
                PaletteHandleResult::Stay
            },
            PaletteKey::Other => PaletteHandleResult::Stay,
        }
    }

    fn clamp_selected(&mut self)
        ensures
            final(self)@.input == old(self)@.input,
            final(self)@.matched == old(self)@.matched,
            final(self).items == old(self).items,
            final(self)@.selected == clamped(old(self)@.selected, old(self)@.matched),
    {
        if self.matched.len() > 0 && self.selected >= self.matched.len() {
            self.selected = self.matched.len() - 1;
        }
    }
}

} // verus!
