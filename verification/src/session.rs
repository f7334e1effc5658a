//! The desktop client's decisions: which daemon request a user action
//! leads to, how daemon replies update what is shown, and the labels shown.

use vstd::prelude::*;
use crate::routing::opt_view;
use crate::text::{chars_of, str_eq, string_from_chars};

verus! {

/// The pages of the main window.
#[derive(Clone, Copy, PartialEq, Debug, Eq, Structural)]
pub enum ActiveView {
    Dashboard,
    Nodes,
    Connections,
    Rules,
    Subscriptions,
    Config,
    Logs,
    Tools,
    Settings,
    About,
}

/// The entries of the navigation bar; the settings entry also covers the
/// about page.
#[derive(Clone, Copy, PartialEq, Debug, Eq, Structural)]
pub enum NavTarget {
    Dashboard,
    Nodes,
    Config,
    Subscriptions,
    Connections,
    Rules,
    Logs,
    Tools,
    Settings,
}

/// The kinds of page header.
#[derive(Clone, Copy, PartialEq, Debug, Eq, Structural)]
pub enum PageKind {
    Dashboard,
    Nodes,
    Config,
    Subscriptions,
    Connections,
    Rules,
    Logs,
    Tools,
    Settings,
    About,
}

/// The navigation entry highlighted on a page.
pub open spec fn nav_target_of(v: ActiveView) -> NavTarget {
    match v {
        ActiveView::Dashboard => NavTarget::Dashboard,
        ActiveView::Nodes => NavTarget::Nodes,
        ActiveView::Config => NavTarget::Config,
        ActiveView::Subscriptions => NavTarget::Subscriptions,
        ActiveView::Connections => NavTarget::Connections,
        ActiveView::Rules => NavTarget::Rules,
        ActiveView::Logs => NavTarget::Logs,
        ActiveView::Tools => NavTarget::Tools,
        ActiveView::Settings => NavTarget::Settings,
        ActiveView::About => NavTarget::Settings,
    }
}

/// The page a navigation entry opens.
pub open spec fn view_of(n: NavTarget) -> ActiveView {
    match n {
        NavTarget::Dashboard => ActiveView::Dashboard,
        NavTarget::Nodes => ActiveView::Nodes,
        NavTarget::Config => ActiveView::Config,
        NavTarget::Subscriptions => ActiveView::Subscriptions,
        NavTarget::Connections => ActiveView::Connections,
        NavTarget::Rules => ActiveView::Rules,
        NavTarget::Logs => ActiveView::Logs,
        NavTarget::Tools => ActiveView::Tools,
        NavTarget::Settings => ActiveView::Settings,
    }
}

/// The header kind of a page.
pub open spec fn page_kind_of(v: ActiveView) -> PageKind {
    match v {
        ActiveView::Dashboard => PageKind::Dashboard,
        ActiveView::Nodes => PageKind::Nodes,
        ActiveView::Config => PageKind::Config,
        ActiveView::Subscriptions => PageKind::Subscriptions,
        ActiveView::Connections => PageKind::Connections,
        ActiveView::Rules => PageKind::Rules,
        ActiveView::Logs => PageKind::Logs,
        ActiveView::Tools => PageKind::Tools,
        ActiveView::Settings => PageKind::Settings,
        ActiveView::About => PageKind::About,
    }
}

impl From<ActiveView> for NavTarget {
    fn from(value: ActiveView) -> (r: NavTarget) {
        match value {
            ActiveView::Dashboard => NavTarget::Dashboard,
            ActiveView::Nodes => NavTarget::Nodes,
            ActiveView::Config => NavTarget::Config,
            ActiveView::Subscriptions => NavTarget::Subscriptions,
            ActiveView::Connections => NavTarget::Connections,
            ActiveView::Rules => NavTarget::Rules,
            ActiveView::Logs => NavTarget::Logs,
            ActiveView::Tools => NavTarget::Tools,
            ActiveView::Settings | ActiveView::About => NavTarget::Settings,
        }
    }
}

impl vstd::std_specs::convert::FromSpecImpl<ActiveView> for NavTarget {
    open spec fn obeys_from_spec() -> bool {
        true
    }

    open spec fn from_spec(v: ActiveView) -> NavTarget {
        nav_target_of(v)
    }
}

impl From<NavTarget> for ActiveView {
    fn from(value: NavTarget) -> (r: ActiveView) {
        match value {
            NavTarget::Dashboard => ActiveView::Dashboard,
            NavTarget::Nodes => ActiveView::Nodes,
            NavTarget::Config => ActiveView::Config,
            NavTarget::Subscriptions => ActiveView::Subscriptions,
            NavTarget::Connections => ActiveView::Connections,
            NavTarget::Rules => ActiveView::Rules,
            NavTarget::Logs => ActiveView::Logs,
            NavTarget::Tools => ActiveView::Tools,
            NavTarget::Settings => ActiveView::Settings,
        }
    }
}

impl vstd::std_specs::convert::FromSpecImpl<NavTarget> for ActiveView {
    open spec fn obeys_from_spec() -> bool {
        true
    }

    open spec fn from_spec(v: NavTarget) -> ActiveView {
        view_of(v)
    }
}

impl From<ActiveView> for PageKind {
    fn from(value: ActiveView) -> (r: PageKind) {
        match value {
            ActiveView::Dashboard => PageKind::Dashboard,
            ActiveView::Nodes => PageKind::Nodes,
            ActiveView::Config => PageKind::Config,
            ActiveView::Subscriptions => PageKind::Subscriptions,
            ActiveView::Connections => PageKind::Connections,
            ActiveView::Rules => PageKind::Rules,
            ActiveView::Logs => PageKind::Logs,
            ActiveView::Tools => PageKind::Tools,
            ActiveView::Settings => PageKind::Settings,
            ActiveView::About => PageKind::About,
        }
    }
}

impl vstd::std_specs::convert::FromSpecImpl<ActiveView> for PageKind {
    open spec fn obeys_from_spec() -> bool {
        true
    }

    open spec fn from_spec(v: ActiveView) -> PageKind {
        page_kind_of(v)
    }
}

/// Following a navigation entry and highlighting the page reached gives
/// back the entry; a page other than "about" is reached again from its own
/// entry; every page has its own header kind.
pub proof fn law_navigation_round_trip(n: NavTarget, v: ActiveView, w: ActiveView)
    ensures
        nav_target_of(view_of(n)) == n,
        v != ActiveView::About ==> view_of(nav_target_of(v)) == v,
        page_kind_of(v) == page_kind_of(w) ==> v == w,
{
}

/// The icons the client draws.
#[derive(Clone, Copy, PartialEq, Debug, Eq, Structural)]
pub enum IconName {
    Dashboard,
    Nodes,
    Config,
    Subscriptions,
    Connections,
    Rules,
    Logs,
    Tools,
    Settings,
    About,
    Github,
    Moon,
    Bell,
    ExternalLink,
    Terminal,
}

impl IconName {
    /// The SVG file of the icon.
    pub fn path(&self) -> (p: &'static str)
        ensures
            p@ == match self {
            IconName::Dashboard => "resources/assets/ic_dashboard.svg"@,
            IconName::Nodes => "resources/assets/ic_nodes.svg"@,
            IconName::Config => "resources/assets/ic_config.svg"@,
            IconName::Subscriptions => "resources/assets/ic_subscriptions.svg"@,
            IconName::Connections => "resources/assets/ic_connections.svg"@,
            IconName::Rules => "resources/assets/ic_rules.svg"@,
            IconName::Logs => "resources/assets/ic_logs.svg"@,
            IconName::Tools => "resources/assets/ic_tools.svg"@,
            IconName::Settings => "resources/assets/ic_settings.svg"@,
            IconName::About => "resources/assets/ic_about.svg"@,
            IconName::Github => "resources/assets/ic_github.svg"@,
            IconName::Moon => "resources/assets/ic_moon.svg"@,
            IconName::Bell => "resources/assets/ic_bell.svg"@,
            IconName::ExternalLink => "resources/assets/ic_external-link.svg"@,
            IconName::Terminal => "resources/assets/ic_terminal.svg"@,
            },
    {
        match self {
            IconName::Dashboard => "resources/assets/ic_dashboard.svg",
            IconName::Nodes => "resources/assets/ic_nodes.svg",
            IconName::Config => "resources/assets/ic_config.svg",
            IconName::Subscriptions => "resources/assets/ic_subscriptions.svg",
            IconName::Connections => "resources/assets/ic_connections.svg",
            IconName::Rules => "resources/assets/ic_rules.svg",
            IconName::Logs => "resources/assets/ic_logs.svg",
            IconName::Tools => "resources/assets/ic_tools.svg",
            IconName::Settings => "resources/assets/ic_settings.svg",
            IconName::About => "resources/assets/ic_about.svg",
            IconName::Github => "resources/assets/ic_github.svg",
            IconName::Moon => "resources/assets/ic_moon.svg",
            IconName::Bell => "resources/assets/ic_bell.svg",
            IconName::ExternalLink => "resources/assets/ic_external-link.svg",
            IconName::Terminal => "resources/assets/ic_terminal.svg",
        }
    }
}

/// How traffic is routed to the proxy kernel.
#[derive(Clone, Copy, PartialEq, Debug, Eq, Structural)]
pub enum ProxyMode {
    Disabled,
    SystemProxy,
    Tun,
}

/// The tone of a status badge.
#[derive(Clone, Copy, PartialEq, Debug, Eq, Structural)]
pub enum NaryaStatus {
    Info,
    Success,
    Warning,
    Danger,
}

/// The label shown for a routing mode.
pub fn routing_mode_label(mode: ProxyMode) -> (s: &'static str)
    ensures
        s@ == match mode {
            ProxyMode::Disabled => "关闭"@,
            ProxyMode::SystemProxy => "系统代理"@,
            ProxyMode::Tun => "TUN"@,
        },
{
    match mode {
        ProxyMode::Disabled => "关闭",
        ProxyMode::SystemProxy => "系统代理",
        ProxyMode::Tun => "TUN",
    }
}

/// The label shown for a kernel's state.
pub open spec fn kernel_state_text(state: Seq<char>) -> Seq<char> {
    if state == "installed"@ {
        "已安装，未运行"@
    } else if state == "installing"@ {
        "正在安装"@
    } else if state == "upgrading"@ {
        "正在升级"@
    } else if state == "starting"@ {
        "正在启动"@
    } else if state == "running"@ {
        "运行中"@
    } else if state == "stopping"@ {
        "正在停止"@
    } else if state == "uninstalling"@ {
        "正在卸载"@
    } else if state == "failed"@ {
        "操作失败"@
    } else {
        "未安装"@
    }
}

/// The label shown for a kernel's state.
pub fn kernel_state_label(state: &str) -> (s: &'static str)
    ensures
        s@ == kernel_state_text(state@),
{
    if str_eq(state, "installed") {
        "已安装，未运行"
    } else if str_eq(state, "installing") {
        "正在安装"
    } else if str_eq(state, "upgrading") {
        "正在升级"
    } else if str_eq(state, "starting") {
        "正在启动"
    } else if str_eq(state, "running") {
        "运行中"
    } else if str_eq(state, "stopping") {
        "正在停止"
    } else if str_eq(state, "uninstalling") {
        "正在卸载"
    } else if str_eq(state, "failed") {
        "操作失败"
    } else {
        "未安装"
    }
}

/// The badge tone for a latency: good below 90 ms, fair below 140 ms.
pub fn latency_status(ms: u32) -> (s: NaryaStatus)
    ensures
        s == if ms < 90 { NaryaStatus::Success } else if ms < 140 { NaryaStatus::Warning } else { NaryaStatus::Danger },
{
    if ms < 90 {
        NaryaStatus::Success
    } else if ms < 140 {
        NaryaStatus::Warning
    } else {
        NaryaStatus::Danger
    }
}

/// `c` with ASCII lowercase letters made uppercase.
pub open spec fn ascii_upper(c: char) -> char {
    if 'a' <= c && c <= 'z' { ((c as u8) - 32) as char } else { c }
}

/// The tone of a log line by its level: errors are dangers, warnings
/// warnings, the rest information (levels compared ignoring ASCII case).
pub open spec fn log_tone_of(level: Seq<char>) -> NaryaStatus {
    let u = level.map_values(|c: char| ascii_upper(c));
    if u == "ERROR"@ || u == "FATAL"@ {
        NaryaStatus::Danger
    } else if u == "WARN"@ {
        NaryaStatus::Warning
    } else {
        NaryaStatus::Info
    }
}

/// The tone of a log line by its level.
pub fn log_tone(level: &str) -> (s: NaryaStatus)
    ensures
        s == log_tone_of(level@),
{
    let v = chars_of(level);
    let mut u: Vec<char> = Vec::new();
    let mut i: usize = 0;
    while i < v.len()
        invariant
            i <= v.len(),
            u@ == v@.take(i as int).map_values(|c: char| ascii_upper(c)),
        decreases v.len() - i,
    {
        let c = v[i];
        let up = if 'a' <= c && c <= 'z' { ((c as u8) - 32u8) as char } else { c };
        let ghost prev = u@;
        u.push(up);
        proof {
            crate::text::lemma_map_take_push(v@, i as int, |c: char| ascii_upper(c));
        }
        i += 1;
    }
    assert(v@.take(v.len() as int) =~= v@);
    let s = string_from_chars(u.as_slice());
    if str_eq(s.as_str(), "ERROR") || str_eq(s.as_str(), "FATAL") {
        NaryaStatus::Danger
    } else if str_eq(s.as_str(), "WARN") {
        NaryaStatus::Warning
    } else {
        NaryaStatus::Info
    }
}

/// What clicking a routing mode's button does.
#[derive(Clone, Copy, PartialEq, Debug, Eq, Structural)]
pub enum RoutingToggle {
    /// The kernel is stopped: remember the mode and start the kernel.
    ConfigureAndStart(ProxyMode),
    /// The mode is already active: stop the kernel.
    Stop,
    /// Another mode is active: switch the running kernel to this one.
    Switch(ProxyMode),
}

/// What clicking the button of `mode` does, given whether the kernel runs
/// and which mode is active.
pub fn toggle_routing_mode(running: bool, active: ProxyMode, mode: ProxyMode) -> (t: RoutingToggle)
    ensures
        t == if !running {
            RoutingToggle::ConfigureAndStart(mode)
        } else if active == mode {
            RoutingToggle::Stop
        } else {
            RoutingToggle::Switch(mode)
        },
{
    if !running {
        RoutingToggle::ConfigureAndStart(mode)
    } else if active == mode {
        RoutingToggle::Stop
    } else {
        RoutingToggle::Switch(mode)
    }
}

/// What the daemon reports about a proxy kernel.
#[derive(Clone, Debug)]
pub struct KernelInfo {
    pub name: String,
    pub installed: bool,
    pub version: Option<String>,
    pub running: bool,
    pub healthy: bool,
    pub state: String,
    pub failure: Option<String>,
}

pub struct KernelInfoModel {
    pub name: Seq<char>,
    pub installed: bool,
    pub version: Option<Seq<char>>,
    pub running: bool,
    pub healthy: bool,
    pub state: Seq<char>,
    pub failure: Option<Seq<char>>,
}

impl View for KernelInfo {
    type V = KernelInfoModel;

    open spec fn view(&self) -> KernelInfoModel {
        KernelInfoModel {
            name: self.name@,
            installed: self.installed,
            version: opt_view(self.version),
            running: self.running,
            healthy: self.healthy,
            state: self.state@,
            failure: opt_view(self.failure),
        }
    }
}

pub open spec fn kernels_view(v: Seq<KernelInfo>) -> Seq<KernelInfoModel> {
    v.map_values(|k: KernelInfo| k@)
}

/// Some kernel called `name` is installed.
pub open spec fn kernel_installed(ks: Seq<KernelInfoModel>, name: Seq<char>) -> bool {
    exists|i: int| 0 <= i < ks.len() && (#[trigger] ks[i]).name == name && ks[i].installed
}

/// Some kernel runs and is healthy.
pub open spec fn some_kernel_healthy(ks: Seq<KernelInfoModel>) -> bool {
    exists|i: int| 0 <= i < ks.len() && (#[trigger] ks[i]).running && ks[i].healthy
}

/// Whether a kernel called `name` is installed.
pub fn is_kernel_installed(kernels: &Vec<KernelInfo>, name: &str) -> (r: bool)
    ensures
        r == kernel_installed(kernels_view(kernels@), name@),
{
    let ghost kv = kernels_view(kernels@);
    let mut i: usize = 0;
    while i < kernels.len()
        invariant
            i <= kernels.len(),
            kv == kernels_view(kernels@),
            forall|j: int| 0 <= j < i ==> !((#[trigger] kv[j]).name == name@ && kv[j].installed),
        decreases kernels.len() - i,
    {
        assert(kv[i as int] == kernels@[i as int]@);
        if str_eq(kernels[i].name.as_str(), name) && kernels[i].installed {
            return true;
        }
        i += 1;
    }
    false
}

/// Whether some kernel runs and is healthy.
pub fn any_kernel_healthy(kernels: &Vec<KernelInfo>) -> (r: bool)
    ensures
        r == some_kernel_healthy(kernels_view(kernels@)),
{
    let ghost kv = kernels_view(kernels@);
    let mut i: usize = 0;
    while i < kernels.len()
        invariant
            i <= kernels.len(),
            kv == kernels_view(kernels@),
            forall|j: int| 0 <= j < i ==> !((#[trigger] kv[j]).running && kv[j].healthy),
        decreases kernels.len() - i,
    {
        assert(kv[i as int] == kernels@[i as int]@);
        if kernels[i].running && kernels[i].healthy {
            return true;
        }
        i += 1;
    }
    false
}

/// What choosing a kernel does.
#[derive(Clone, Copy, PartialEq, Debug, Eq, Structural)]
pub enum KernelChoice {
    /// The kernel is not installed; nothing starts.
    NotInstalled,
    /// The proxy is stopped: make it the active kernel and start.
    Start,
    /// The proxy runs: hot-switch to the kernel.
    HotSwitch,
}

/// What choosing the kernel `name` does.
pub fn choose_kernel(kernels: &Vec<KernelInfo>, name: &str, running: bool) -> (c: KernelChoice)
    ensures
        c == if !kernel_installed(kernels_view(kernels@), name@) {
            KernelChoice::NotInstalled
        } else if !running {
            KernelChoice::Start
        } else {
            KernelChoice::HotSwitch
        },
{
    if !is_kernel_installed(kernels, name) {
        KernelChoice::NotInstalled
    } else if !running {
        KernelChoice::Start
    } else {
        KernelChoice::HotSwitch
    }
}

/// What the status bar shows after a routing-status reply: the kernel runs
/// when it is healthy and some mode is active.
pub fn kernel_running_from_status(healthy: bool, active: ProxyMode) -> (r: bool)
    ensures
        r == (healthy && active != ProxyMode::Disabled),
{
    healthy && active != ProxyMode::Disabled
}

/// The status of the first kernel called `name` after an install or
/// upgrade reported `version`.
pub open spec fn installed_info(k: KernelInfoModel, version: Seq<char>) -> KernelInfoModel {
    KernelInfoModel {
        installed: true,
        version: Some(version),
        state: "installed"@,
        running: false,
        healthy: false,
        failure: None,
        ..k
    }
}

/// The status of a kernel after it was uninstalled.
pub open spec fn uninstalled_info(k: KernelInfoModel) -> KernelInfoModel {
    KernelInfoModel {
        installed: false,
        version: None,
        running: false,
        healthy: false,
        state: "not_installed"@,
        failure: None,
        ..k
    }
}

/// The kernel list after an install or upgrade of `name` reported
/// `version`: the first kernel of that name is marked installed.
pub open spec fn after_install(ks: Seq<KernelInfoModel>, name: Seq<char>, version: Seq<char>) -> Seq<KernelInfoModel> {
    let i = first_kernel(ks, name);
    if i < ks.len() { ks.update(i, installed_info(ks[i], version)) } else { ks }
}

/// The kernel list after `name` was uninstalled.
pub open spec fn after_uninstall(ks: Seq<KernelInfoModel>, name: Seq<char>) -> Seq<KernelInfoModel> {
    let i = first_kernel(ks, name);
    if i < ks.len() { ks.update(i, uninstalled_info(ks[i])) } else { ks }
}

/// The index of the first kernel called `name`, or their number.
pub open spec fn first_kernel(ks: Seq<KernelInfoModel>, name: Seq<char>) -> int
    decreases ks.len(),
{
    if ks.len() == 0 {
        0
    } else if ks[0].name == name {
        0
    } else {
        1 + first_kernel(ks.drop_first(), name)
    }
}

proof fn lemma_first_kernel_at(s: Seq<KernelInfoModel>, name: Seq<char>, i: int)
    requires
        0 <= i <= s.len(),
        forall|j: int| 0 <= j < i ==> (#[trigger] s[j]).name != name,
        i == s.len() || s[i].name == name,
    ensures
        first_kernel(s, name) == i,
    decreases i,
{
    if i > 0 {
        assert forall|j: int| 0 <= j < i - 1 implies (#[trigger] s.drop_first()[j]).name != name by {
            assert(s.drop_first()[j] == s[j + 1]);
        }
        lemma_first_kernel_at(s.drop_first(), name, i - 1);
    }
}

proof fn lemma_first_kernel_found(s: Seq<KernelInfoModel>, name: Seq<char>)
    ensures
        0 <= first_kernel(s, name) <= s.len(),
        forall|j: int| 0 <= j < first_kernel(s, name) ==> (#[trigger] s[j]).name != name,
        first_kernel(s, name) < s.len() ==> s[first_kernel(s, name)].name == name,
    decreases s.len(),
{
    if s.len() > 0 && s[0].name != name {
        lemma_first_kernel_found(s.drop_first(), name);
        assert forall|j: int| 0 <= j < first_kernel(s, name) implies (#[trigger] s[j]).name != name by {
            if j > 0 {
                assert(s[j] == s.drop_first()[j - 1]);
            }
        }
    }
}

/// Uninstalling a kernel right after installing it leaves the kernel list
/// as uninstalling it alone would: the install is fully undone.
pub proof fn law_uninstall_undoes_install(ks: Seq<KernelInfoModel>, name: Seq<char>, version: Seq<char>)
    ensures
        after_uninstall(after_install(ks, name, version), name) == after_uninstall(ks, name),
{
    lemma_first_kernel_found(ks, name);
    let i = first_kernel(ks, name);
    if i < ks.len() {
        let u = ks.update(i, installed_info(ks[i], version));
        assert forall|j: int| 0 <= j < i implies (#[trigger] u[j]).name != name by {
            assert(u[j] == ks[j]);
        }
        lemma_first_kernel_at(u, name, i);
        assert(uninstalled_info(installed_info(ks[i], version)) == uninstalled_info(ks[i]));
        assert(u.update(i, uninstalled_info(u[i])) =~= ks.update(i, uninstalled_info(ks[i])));
    }
}

pub fn find_kernel(kernels: &Vec<KernelInfo>, name: &str) -> (r: usize)
    ensures
        r == first_kernel(kernels_view(kernels@), name@),
        r <= kernels.len(),
{
    let ghost kv = kernels_view(kernels@);
    let mut i: usize = 0;
    while i < kernels.len()
        invariant
            i <= kernels.len(),
            kv == kernels_view(kernels@),
            forall|j: int| 0 <= j < i ==> (#[trigger] kv[j]).name != name@,
        decreases kernels.len() - i,
    {
        assert(kv[i as int] == kernels@[i as int]@);
        if str_eq(kernels[i].name.as_str(), name) {
            proof {
                lemma_first_kernel_at(kv, name@, i as int);
            }
            return i;
        }
        i += 1;
    }
    proof {
        lemma_first_kernel_at(kv, name@, i as int);
    }
    i
}

/// Records a finished install or upgrade of `name` at `version`.
pub fn mark_kernel_installed(kernels: &mut Vec<KernelInfo>, name: &str, version: &str)
    ensures
        kernels_view(final(kernels)@) == after_install(kernels_view(old(kernels)@), name@, version@),
{
    let i = find_kernel(kernels, name);
    if i < kernels.len() {
        let ghost before = kernels@;
        kernels[i].installed = true;
        kernels[i].version = Some(String::from_str(version));
        kernels[i].state = String::from_str("installed");
        kernels[i].running = false;
        kernels[i].healthy = false;
        kernels[i].failure = None;
        assert(kernels_view(kernels@) =~= kernels_view(before).update(
            i as int,
            installed_info(kernels_view(before)[i as int], version@),
        ));
    }
}

/// Records a finished uninstall of `name`.
pub fn mark_kernel_uninstalled(kernels: &mut Vec<KernelInfo>, name: &str)
    ensures
        kernels_view(final(kernels)@) == after_uninstall(kernels_view(old(kernels)@), name@),
{
    let i = find_kernel(kernels, name);
    if i < kernels.len() {
        let ghost before = kernels@;
        kernels[i].installed = false;
        kernels[i].version = None;
        kernels[i].running = false;
        kernels[i].healthy = false;
        kernels[i].state = String::from_str("not_installed");
        kernels[i].failure = None;
        assert(kernels_view(kernels@) =~= kernels_view(before).update(i as int, uninstalled_info(kernels_view(before)[i as int])));
    }
}

/// The kernels the client knows of before the daemon reports: sing-box,
/// mihomo, xray-core and v2ray-core, none installed.
pub open spec fn known_kernel_names() -> Seq<Seq<char>> {
    seq!["sing-box"@, "mihomo"@, "xray-core"@, "v2ray-core"@]
}

fn absent_kernel(name: &str) -> (k: KernelInfo)
    ensures
        k@ == (KernelInfoModel {
            name: name@,
            installed: false,
            version: None,
            running: false,
            healthy: false,
            state: "not_installed"@,
            failure: None,
        }),
{
    KernelInfo {
        name: String::from_str(name),
        installed: false,
        version: None,
        running: false,
        healthy: false,
        state: String::from_str("not_installed"),
        failure: None,
    }
}

/// The kernel list shown before the daemon reports.
pub fn default_kernels() -> (ks: Vec<KernelInfo>)
    ensures
        ks@.len() == 4,
        forall|i: int| 0 <= i < 4 ==> (#[trigger] kernels_view(ks@)[i]) == (KernelInfoModel {
            name: known_kernel_names()[i],
            installed: false,
            version: None,
            running: false,
            healthy: false,
            state: "not_installed"@,
            failure: None,
        }),
{
    let mut ks: Vec<KernelInfo> = Vec::new();
    ks.push(absent_kernel("sing-box"));
    ks.push(absent_kernel("mihomo"));
    ks.push(absent_kernel("xray-core"));
    ks.push(absent_kernel("v2ray-core"));
    ks
}

} // verus!
