//! The client's state apart from nodes and subscriptions: preferences, the
//! log, the routing plan sent to the daemon, and how a saved profile is
//! restored at start-up.

use vstd::prelude::*;
use crate::editor::{RoutingTable, default_rules, default_rules_hold};
use crate::kernels::{KernelCatalog, KernelPanel, KernelPanelModel};
use crate::routing::{RoutingGroup, RoutingGroupModel, RuleSetSource, Rule, opt_view};
use crate::rulesets::{RuleSetDraft, blank_rule_set_draft, draft_blank};
use crate::session::{KernelInfo, ProxyMode, default_kernels, kernels_view, known_kernel_names, KernelInfoModel};
use crate::model::strings_view;
use crate::table::{copy_groups, copy_rule_sets, copy_rules, groups_view, rule_sets_view, rules_view};
use crate::text::str_eq;

verus! {

/// The settings kept between runs.
#[derive(Clone, Copy, PartialEq, Debug, Eq, Structural)]
pub struct Preferences {
    pub autostart: bool,
    pub start_minimized: bool,
    pub close_to_tray: bool,
    pub restore_proxy: bool,
    pub auto_update: bool,
    /// 0 follows the system, 1 is light, 2 is dark.
    pub appearance_mode: usize,
}

/// The settings of a new profile: start normally, close to the tray,
/// restore the proxy, update automatically, follow the system theme.
pub open spec fn default_preferences() -> Preferences {
    Preferences {
        autostart: false,
        start_minimized: false,
        close_to_tray: true,
        restore_proxy: true,
        auto_update: true,
        appearance_mode: 0,
    }
}

impl Preferences {
    /// The settings of a new profile.
    pub fn new() -> (p: Preferences)
        ensures
            p == default_preferences(),
    {
        Preferences {
            autostart: false,
            start_minimized: false,
            close_to_tray: true,
            restore_proxy: true,
            auto_update: true,
            appearance_mode: 0,
        }
    }

    /// Sets the switch named `key` to `value`. Returns whether a switch of
    /// that name exists (and the profile is to be saved).
    pub fn set_setting_value(&mut self, key: &str, value: bool) -> (saved: bool)
        ensures
            saved == (key@ == "autostart"@ || key@ == "start_minimized"@ || key@ == "close_to_tray"@
                || key@ == "restore_proxy"@ || key@ == "auto_update"@),
            *final(self) == if key@ == "autostart"@ {
                (Preferences { autostart: value, ..*old(self) })
            } else if key@ == "start_minimized"@ {
                (Preferences { start_minimized: value, ..*old(self) })
            } else if key@ == "close_to_tray"@ {
                (Preferences { close_to_tray: value, ..*old(self) })
            } else if key@ == "restore_proxy"@ {
                (Preferences { restore_proxy: value, ..*old(self) })
            } else if key@ == "auto_update"@ {
                (Preferences { auto_update: value, ..*old(self) })
            } else {
                *old(self)
            },
    {
        if str_eq(key, "autostart") {
            self.autostart = value;
        } else if str_eq(key, "start_minimized") {
            self.start_minimized = value;
        } else if str_eq(key, "close_to_tray") {
            self.close_to_tray = value;
        } else if str_eq(key, "restore_proxy") {
            self.restore_proxy = value;
        } else if str_eq(key, "auto_update") {
            self.auto_update = value;
        } else {
            return false;
        }
        true
    }

    /// Sets the appearance mode; anything past dark counts as dark.
    pub fn set_appearance_mode(&mut self, mode: usize)
        ensures
            *final(self) == (Preferences { appearance_mode: if mode < 2 { mode } else { 2 }, ..*old(self) }),
    {
        self.appearance_mode = if mode < 2 { mode } else { 2 };
    }
}

/// One line of the kernel log as shown.
#[derive(Clone, Debug)]
pub struct LogMessage {
    pub time: String,
    pub level: String,
    pub module: String,
    pub content: String,
}

pub struct LogMessageModel {
    pub time: Seq<char>,
    pub level: Seq<char>,
    pub module: Seq<char>,
    pub content: Seq<char>,
}

impl View for LogMessage {
    type V = LogMessageModel;

    open spec fn view(&self) -> LogMessageModel {
        LogMessageModel { time: self.time@, level: self.level@, module: self.module@, content: self.content@ }
    }
}

pub open spec fn log_view(v: Seq<LogMessage>) -> Seq<LogMessageModel> {
    v.map_values(|m: LogMessage| m@)
}

/// The most log lines kept; older lines are dropped.
pub const MAX_LOG_LINES: usize = 1000;

/// The log after `line` arrives: appended, and the oldest line dropped
/// when the log would grow past `MAX_LOG_LINES`.
pub open spec fn log_after(lines: Seq<LogMessageModel>, line: LogMessageModel) -> Seq<LogMessageModel> {
    let pushed = lines.push(line);
    if pushed.len() > MAX_LOG_LINES { pushed.drop_first() } else { pushed }
}

/// Appends a line to the log, keeping it bounded.
pub fn push_log_line(lines: &mut Vec<LogMessage>, line: LogMessage)
    ensures
        log_view(final(lines)@) == log_after(log_view(old(lines)@), line@),
        old(lines)@.len() <= MAX_LOG_LINES ==> final(lines)@.len() <= MAX_LOG_LINES,
{
    let ghost before = lines@;
    lines.push(line);
    proof {
        crate::text::lemma_map_push(before, line, |m: LogMessage| m@);
    }
    if lines.len() > MAX_LOG_LINES {
        let ghost pushed = lines@;
        lines.remove(0);
        assert(log_view(lines@) =~= log_view(pushed).drop_first());
    }
}

/// `c` is an ASCII decimal digit.
pub open spec fn is_digit(c: char) -> bool {
    '0' <= c && c <= '9'
}

/// The number the two digits of `t` at `i` and `i + 1` write.
pub open spec fn two_digit_value(t: Seq<char>, i: int) -> int {
    ((t[i] as int) - ('0' as int)) * 10 + ((t[i + 1] as int) - ('0' as int))
}

/// `t` is a clock reading `HH:MM:SS`: two-digit hours below 24, minutes
/// below 60, and seconds up to 60 (a leap second reads 60).
pub open spec fn clock_text_form(t: Seq<char>) -> bool {
    &&& t.len() == 8
    &&& t[2] == ':' && t[5] == ':'
    &&& is_digit(t[0]) && is_digit(t[1]) && is_digit(t[3]) && is_digit(t[4]) && is_digit(t[6]) && is_digit(t[7])
    &&& two_digit_value(t, 0) < 24
    &&& two_digit_value(t, 3) < 60
    &&& two_digit_value(t, 6) <= 60
}

/// The local wall-clock time as hours, minutes and seconds.
///
/// Trusted: `chrono::Local::now()` formatted as `%H:%M:%S`. chrono writes
/// the hour (0 to 23), the minute (0 to 59) and the second (0 to 59, or 60
/// during a leap second) as two zero-padded digits each, separated by
/// colons. Which time it reads depends on the clock and the time zone and
/// is not stated.
#[verifier::external_body]
fn local_clock_text() -> (s: String)
    ensures
        clock_text_form(s@),
{
    chrono::Local::now().format("%H:%M:%S").to_string()
}

/// Records a log line the kernel sent, stamped with the local time and
/// attributed to the `core` module.
pub fn record_log_line(lines: &mut Vec<LogMessage>, level: String, message: String)
    ensures
        exists|time: Seq<char>|
            clock_text_form(time) && log_view(final(lines)@) == log_after(
                log_view(old(lines)@),
                LogMessageModel { time: time, level: level@, module: "core"@, content: message@ },
            ),
        old(lines)@.len() <= MAX_LOG_LINES ==> final(lines)@.len() <= MAX_LOG_LINES,
{
    let time = local_clock_text();
    let line = LogMessage { time, level, module: String::from_str("core"), content: message };
    push_log_line(lines, line);
}

/// The system proxy the daemon sets up.
#[derive(Clone, Debug)]
pub struct SystemProxyPlan {
    pub http_host: String,
    pub http_port: u16,
    pub socks_host: String,
    pub socks_port: u16,
    pub bypass_domains: Vec<String>,
}

/// The virtual network interface the daemon sets up in TUN mode.
#[derive(Clone, Debug)]
pub struct TunPlan {
    pub interface_name: String,
    pub address: String,
    pub auto_route: bool,
    pub strict_route: bool,
    pub hijack_dns: bool,
    pub excluded_routes: Vec<String>,
}

/// The DNS servers the kernel uses.
#[derive(Clone, Debug)]
pub struct DnsPlan {
    pub resolver: Vec<String>,
    pub direct: Vec<String>,
    pub proxy: Vec<String>,
    pub hijack: bool,
}

/// How the daemon routes traffic in a mode.
#[derive(Clone, Debug)]
pub struct RoutingPlan {
    pub mode: ProxyMode,
    pub system_proxy: SystemProxyPlan,
    pub tun: Option<TunPlan>,
    pub dns: DnsPlan,
}

/// The DNS-over-HTTPS resolver the plans use.
pub open spec fn doh_resolver() -> Seq<char> {
    "https://1.1.1.1/dns-query"@
}

/// The routing plan for `mode`: a local HTTP proxy on port 2080 and SOCKS
/// proxy on port 1080 bypassing loopback, DNS over HTTPS, and in TUN mode a
/// `narya0` interface on 172.19.0.1/30 that routes everything but loopback
/// and multicast and hijacks DNS.
pub open spec fn routing_plan_holds(p: RoutingPlan, mode: ProxyMode) -> bool {
    &&& p.mode == mode
    &&& p.system_proxy.http_host@ == "127.0.0.1"@
    &&& p.system_proxy.http_port == 2080
    &&& p.system_proxy.socks_host@ == "127.0.0.1"@
    &&& p.system_proxy.socks_port == 1080
    &&& strings_view(p.system_proxy.bypass_domains@) == seq!["localhost"@, "127.0.0.1"@, "::1"@]
    &&& (mode == ProxyMode::Tun) == (p.tun is Some)
    &&& p.tun matches Some(t) ==> {
        &&& t.interface_name@ == "narya0"@
        &&& t.address@ == "172.19.0.1/30"@
        &&& t.auto_route && t.strict_route && t.hijack_dns
        &&& strings_view(t.excluded_routes@) == seq!["127.0.0.0/8"@, "224.0.0.0/4"@]
    }
    &&& strings_view(p.dns.resolver@) == seq![doh_resolver()]
    &&& strings_view(p.dns.direct@) == seq!["local"@]
    &&& strings_view(p.dns.proxy@) == seq![doh_resolver()]
    &&& p.dns.hijack == (mode == ProxyMode::Tun)
}

fn strings_of(items: &[&str]) -> (v: Vec<String>)
    ensures
        v@.len() == items@.len(),
        forall|i: int| 0 <= i < items@.len() ==> (#[trigger] v@[i])@ == items@[i]@,
{
    let mut v: Vec<String> = Vec::new();
    let mut i: usize = 0;
    while i < items.len()
        invariant
            i <= items@.len(),
            v@.len() == i,
            forall|j: int| 0 <= j < i ==> (#[trigger] v@[j])@ == items@[j]@,
        decreases items@.len() - i,
    {
        v.push(String::from_str(items[i]));
        i += 1;
    }
    v
}

/// The routing plan sent with a start or switch in `mode`.
pub fn routing_plan(mode: ProxyMode) -> (p: RoutingPlan)
    ensures
        routing_plan_holds(p, mode),
{
    let bypass = strings_of(&["localhost", "127.0.0.1", "::1"]);
    assert(strings_view(bypass@) =~= seq!["localhost"@, "127.0.0.1"@, "::1"@]);
    let tun = if mode == ProxyMode::Tun {
        let excluded = strings_of(&["127.0.0.0/8", "224.0.0.0/4"]);
        assert(strings_view(excluded@) =~= seq!["127.0.0.0/8"@, "224.0.0.0/4"@]);
        Some(TunPlan {
            interface_name: String::from_str("narya0"),
            address: String::from_str("172.19.0.1/30"),
            auto_route: true,
            strict_route: true,
            hijack_dns: true,
            excluded_routes: excluded,
        })
    } else {
        None
    };
    let resolver = strings_of(&["https://1.1.1.1/dns-query"]);
    let direct = strings_of(&["local"]);
    let proxy = strings_of(&["https://1.1.1.1/dns-query"]);
    assert(strings_view(resolver@) =~= seq![doh_resolver()]);
    assert(strings_view(direct@) =~= seq!["local"@]);
    assert(strings_view(proxy@) =~= seq![doh_resolver()]);
    RoutingPlan {
        mode,
        system_proxy: SystemProxyPlan {
            http_host: String::from_str("127.0.0.1"),
            http_port: 2080,
            socks_host: String::from_str("127.0.0.1"),
            socks_port: 1080,
            bypass_domains: bypass,
        },
        tun,
        dns: DnsPlan { resolver, direct, proxy, hijack: mode == ProxyMode::Tun },
    }
}

/// What a saved profile holds besides nodes and subscriptions.
#[derive(Clone, Debug)]
pub struct PersistedState {
    pub active_node_id: Option<String>,
    pub kernel_running: bool,
    pub active_kernel: String,
    pub selected_subscription_id: Option<String>,
    pub rules: Vec<Rule>,
    pub groups: Vec<RoutingGroup>,
    pub rule_sets: Vec<RuleSetSource>,
    pub preferences: Preferences,
}

/// The client's state apart from nodes and subscriptions.
pub struct ClientState {
    pub active_node_id: Option<String>,
    pub selected_subscription_id: Option<String>,
    pub rule_action_filter: String,
    pub table: RoutingTable,
    pub panel: KernelPanel,
    pub kernel_artifact_kernel: String,
    pub catalog: KernelCatalog,
    pub rule_set_draft: RuleSetDraft,
    pub preferences: Preferences,
    pub log_lines: Vec<LogMessage>,
}

/// What holds of every restored state: nothing is running, routing is set
/// to the system proxy but not in effect, no operation, error, log line or
/// catalog entry is left over, every form is empty and the rule filter
/// shows all actions.
pub open spec fn starts_clean(s: ClientState) -> bool {
    &&& s.rule_action_filter@ == "all"@
    &&& !s.panel.running
    &&& !s.panel.healthy
    &&& s.panel.routing_mode == ProxyMode::SystemProxy
    &&& s.panel.routing_configured is None
    &&& s.panel.routing_active == ProxyMode::Disabled
    &&& s.panel.operation is None
    &&& s.panel.error is None
    &&& s.table.rule_editor_error is None
    &&& s.table.group_error is None
    &&& s.table.rule_set_error is None
    &&& s.catalog.source@ == Seq::<char>::empty()
    &&& s.catalog.trusted_key@ == Seq::<char>::empty()
    &&& s.catalog.status is None
    &&& s.catalog.entries@.len() == 0
    &&& draft_blank(s.rule_set_draft)
    &&& s.log_lines@.len() == 0
}

/// The state restored from a saved profile, when that profile holds
/// subscriptions: its selections, rules, groups, rule sets and settings,
/// with the default rules and `default_group` standing in for an empty
/// rule or group list, `sing-box` for an unnamed kernel, and the kernel
/// list left for the daemon to report.
pub open spec fn restored_from(s: ClientState, p: PersistedState, default_group: RoutingGroupModel) -> bool {
    let kernel = if p.active_kernel@.len() == 0 { "sing-box"@ } else { p.active_kernel@ };
    &&& starts_clean(s)
    &&& opt_view(s.active_node_id) == opt_view(p.active_node_id)
    &&& opt_view(s.selected_subscription_id) == opt_view(p.selected_subscription_id)
    &&& if p.rules@.len() == 0 {
        default_rules_hold(rules_view(s.table.rules@))
    } else {
        rules_view(s.table.rules@) == rules_view(p.rules@)
    }
    &&& groups_view(s.table.groups@) == if p.groups@.len() == 0 { seq![default_group] } else { groups_view(p.groups@) }
    &&& rule_sets_view(s.table.rule_sets@) == rule_sets_view(p.rule_sets@)
    &&& s.panel.kernels@.len() == 0
    &&& s.panel.active_kernel@ == kernel
    &&& s.kernel_artifact_kernel@ == kernel
    &&& s.preferences == Preferences {
        appearance_mode: if p.preferences.appearance_mode < 2 { p.preferences.appearance_mode } else { 2 },
        ..p.preferences
    }
}

/// The state of a new profile: nothing selected, the default rules and
/// `default_group`, no rule sets, the known kernels none installed,
/// `sing-box` as the kernel, and default settings.
pub open spec fn fresh(s: ClientState, default_group: RoutingGroupModel) -> bool {
    &&& starts_clean(s)
    &&& s.active_node_id is None
    &&& s.selected_subscription_id is None
    &&& default_rules_hold(rules_view(s.table.rules@))
    &&& groups_view(s.table.groups@) == seq![default_group]
    &&& s.table.rule_sets@.len() == 0
    &&& s.panel.kernels@.len() == 4
    &&& forall|i: int| 0 <= i < 4 ==> (#[trigger] kernels_view(s.panel.kernels@)[i]) == (KernelInfoModel {
        name: known_kernel_names()[i],
        installed: false,
        version: None,
        running: false,
        healthy: false,
        state: "not_installed"@,
        failure: None,
    })
    &&& s.panel.active_kernel@ == "sing-box"@
    &&& s.kernel_artifact_kernel@ == "sing-box"@
    &&& s.preferences == default_preferences()
}

fn clean_state(
    active_node_id: Option<String>,
    selected_subscription_id: Option<String>,
    table: RoutingTable,
    kernels: Vec<KernelInfo>,
    kernel: String,
    preferences: Preferences,
) -> (s: ClientState)
    requires
        table.rule_editor_error is None,
        table.group_error is None,
        table.rule_set_error is None,
    ensures
        starts_clean(s),
        s.active_node_id == active_node_id,
        s.selected_subscription_id == selected_subscription_id,
        s.table.rules@ == table.rules@,
        s.table.groups@ == table.groups@,
        s.table.rule_sets@ == table.rule_sets@,
        s.panel.kernels@ == kernels@,
        s.panel.active_kernel@ == kernel@,
        s.kernel_artifact_kernel@ == kernel@,
        s.preferences == preferences,
{
    let artifact_kernel = kernel.clone();
    ClientState {
        active_node_id,
        selected_subscription_id,
        rule_action_filter: String::from_str("all"),
        table,
        panel: KernelPanel {
            kernels,
            active_kernel: kernel,
            running: false,
            healthy: false,
            routing_mode: ProxyMode::SystemProxy,
            routing_configured: None,
            routing_active: ProxyMode::Disabled,
            operation: None,
            error: None,
        },
        kernel_artifact_kernel: artifact_kernel,
        catalog: KernelCatalog {
            source: String::new(),
            trusted_key: String::new(),
            status: None,
            entries: Vec::new(),
        },
        rule_set_draft: blank_rule_set_draft(),
        preferences,
        log_lines: Vec::new(),
    }
}

impl ClientState {
    /// The state at start-up from what was saved, with the saved nodes and
    /// subscriptions it keeps: a profile that holds subscriptions is
    /// restored whole; otherwise the client starts as a new profile, with
    /// no nodes and no subscriptions.
    pub fn restore<N, S>(
        persisted: PersistedState,
        nodes: Vec<N>,
        subscriptions: Vec<S>,
        default_group: RoutingGroup,
    ) -> (r: (ClientState, Vec<N>, Vec<S>))
        ensures
            subscriptions@.len() > 0 ==> restored_from(r.0, persisted, default_group@) && r.1@ == nodes@ && r.2@
                == subscriptions@,
            subscriptions@.len() == 0 ==> fresh(r.0, default_group@) && r.1@.len() == 0 && r.2@.len() == 0,
    {
        let has_subscriptions = subscriptions.len() > 0;
        let state = ClientState::load_or_default(persisted, has_subscriptions, default_group);
        if has_subscriptions {
            (state, nodes, subscriptions)
        } else {
            (state, Vec::new(), Vec::new())
        }
    }

    /// The state at start-up. A saved profile that holds subscriptions
    /// (`has_subscriptions`) is restored; otherwise the client starts as a
    /// new profile. A saved running flag is ignored: only the daemon can
    /// tell whether the kernel runs.
    pub fn load_or_default(persisted: PersistedState, has_subscriptions: bool, default_group: RoutingGroup) -> (s: ClientState)
        ensures
            has_subscriptions ==> restored_from(s, persisted, default_group@),
            !has_subscriptions ==> fresh(s, default_group@),
    {
        let ghost dg = default_group@;
        let mut groups: Vec<RoutingGroup> = Vec::new();
        groups.push(default_group);
        assert(groups_view(groups@) =~= seq![dg]);
        if has_subscriptions {
            let kernel = if persisted.active_kernel.as_str().is_empty() {
                String::from_str("sing-box")
            } else {
                persisted.active_kernel
            };
            let rules = if persisted.rules.len() == 0 { default_rules() } else { persisted.rules };
            let groups = if persisted.groups.len() == 0 { groups } else { persisted.groups };
            let mut preferences = persisted.preferences;
            preferences.set_appearance_mode(persisted.preferences.appearance_mode);
            let table = RoutingTable {
                rules,
                groups,
                rule_sets: persisted.rule_sets,
                rule_editor_error: None,
                group_error: None,
                rule_set_error: None,
            };
            clean_state(
                persisted.active_node_id,
                persisted.selected_subscription_id,
                table,
                Vec::new(),
                kernel,
                preferences,
            )
        } else {
            let table = RoutingTable {
                rules: default_rules(),
                groups,
                rule_sets: Vec::new(),
                rule_editor_error: None,
                group_error: None,
                rule_set_error: None,
            };
            clean_state(None, None, table, default_kernels(), String::from_str("sing-box"), Preferences::new())
        }
    }
}

/// What the daemon pushes to the client, apart from traffic figures.
#[derive(Clone, Debug)]
pub enum Notification {
    /// Whether the kernel runs.
    StatusUpdate { running: bool },
    /// A line of the kernel's log.
    LogLine { level: String, message: String },
    /// The state of every kernel.
    KernelStatusUpdate { kernels: Vec<KernelInfo> },
}

/// `a` and `b` agree on everything but the kernel panel and the log.
pub open spec fn same_but_panel_and_log(a: ClientState, b: ClientState) -> bool {
    &&& a.active_node_id == b.active_node_id
    &&& a.selected_subscription_id == b.selected_subscription_id
    &&& a.rule_action_filter == b.rule_action_filter
    &&& a.table.rules == b.table.rules
    &&& a.table.groups == b.table.groups
    &&& a.table.rule_sets == b.table.rule_sets
    &&& a.table.rule_editor_error == b.table.rule_editor_error
    &&& a.table.group_error == b.table.group_error
    &&& a.table.rule_set_error == b.table.rule_set_error
    &&& a.kernel_artifact_kernel == b.kernel_artifact_kernel
    &&& a.catalog.source == b.catalog.source
    &&& a.catalog.trusted_key == b.catalog.trusted_key
    &&& a.catalog.status == b.catalog.status
    &&& a.catalog.entries == b.catalog.entries
    &&& a.rule_set_draft == b.rule_set_draft
    &&& a.preferences == b.preferences
}

/// `p` is what saving `s` writes, besides nodes and subscriptions.
pub open spec fn saves(s: ClientState, p: PersistedState) -> bool {
    &&& opt_view(p.active_node_id) == opt_view(s.active_node_id)
    &&& p.kernel_running == s.panel.running
    &&& p.active_kernel@ == s.panel.active_kernel@
    &&& opt_view(p.selected_subscription_id) == opt_view(s.selected_subscription_id)
    &&& rules_view(p.rules@) == rules_view(s.table.rules@)
    &&& groups_view(p.groups@) == groups_view(s.table.groups@)
    &&& rule_sets_view(p.rule_sets@) == rule_sets_view(s.table.rule_sets@)
    &&& p.preferences == s.preferences
}

fn copy_opt_string(o: &Option<String>) -> (r: Option<String>)
    ensures
        opt_view(r) == opt_view(*o),
{
    match o {
        Some(s) => Some(s.clone()),
        None => None,
    }
}

impl ClientState {
    /// Takes a notification from the daemon: a status update sets whether
    /// the kernel runs, a log line is appended (stamped with the local time,
    /// attributed to `core`, the oldest line dropped past the bound), a
    /// kernel-status update replaces the kernel list. Nothing else changes.
    pub fn handle_notification(&mut self, n: Notification)
        ensures
            same_but_panel_and_log(*old(self), *final(self)),
            old(self).log_lines@.len() <= MAX_LOG_LINES ==> final(self).log_lines@.len() <= MAX_LOG_LINES,
            match n {
                Notification::StatusUpdate { running } => {
                    &&& final(self).panel@ == (KernelPanelModel { running: running, ..old(self).panel@ })
                    &&& final(self).log_lines == old(self).log_lines
                },
                Notification::LogLine { level, message } => {
                    &&& final(self).panel@ == old(self).panel@
                    &&& exists|time: Seq<char>|
                        clock_text_form(time) && log_view(final(self).log_lines@) == log_after(
                            log_view(old(self).log_lines@),
                            LogMessageModel { time: time, level: level@, module: "core"@, content: message@ },
                        )
                },
                Notification::KernelStatusUpdate { kernels } => {
                    &&& final(self).panel@ == (KernelPanelModel { kernels: kernels_view(kernels@), ..old(self).panel@ })
                    &&& final(self).log_lines == old(self).log_lines
                },
            },
    {
        match n {
            Notification::StatusUpdate { running } => self.panel.apply_running(running),
            Notification::LogLine { level, message } => record_log_line(&mut self.log_lines, level, message),
            Notification::KernelStatusUpdate { kernels } => self.panel.replace_kernels(kernels),
        }
    }

    /// What the state saves for the next start.
    pub fn persisted(&self) -> (p: PersistedState)
        ensures
            saves(*self, p),
    {
        PersistedState {
            active_node_id: copy_opt_string(&self.active_node_id),
            kernel_running: self.panel.running,
            active_kernel: self.panel.active_kernel.clone(),
            selected_subscription_id: copy_opt_string(&self.selected_subscription_id),
            rules: copy_rules(&self.table.rules),
            groups: copy_groups(&self.table.groups),
            rule_sets: copy_rule_sets(&self.table.rule_sets),
            preferences: self.preferences,
        }
    }
}

/// Saving a state and restoring it at the next start gives back its
/// selections, kernel, rules, groups, rule sets and settings, provided the
/// profile holds subscriptions, rules, groups and a kernel name and the
/// appearance mode is a valid one; the restored kernel is never taken to
/// run, since only the daemon can tell.
pub proof fn law_restore_after_save(s: ClientState, p: PersistedState, r: ClientState, default_group: RoutingGroupModel)
    requires
        saves(s, p),
        restored_from(r, p, default_group),
        s.table.rules@.len() > 0,
        s.table.groups@.len() > 0,
        s.panel.active_kernel@.len() > 0,
        s.preferences.appearance_mode <= 2,
    ensures
        opt_view(r.active_node_id) == opt_view(s.active_node_id),
        opt_view(r.selected_subscription_id) == opt_view(s.selected_subscription_id),
        r.panel.active_kernel@ == s.panel.active_kernel@,
        rules_view(r.table.rules@) == rules_view(s.table.rules@),
        groups_view(r.table.groups@) == groups_view(s.table.groups@),
        rule_sets_view(r.table.rule_sets@) == rule_sets_view(s.table.rule_sets@),
        r.preferences == s.preferences,
        !r.panel.running,
{
    assert(p.rules@.len() == rules_view(p.rules@).len());
    assert(s.table.rules@.len() == rules_view(s.table.rules@).len());
    assert(p.groups@.len() == groups_view(p.groups@).len());
    assert(s.table.groups@.len() == groups_view(s.table.groups@).len());
}

} // verus!
