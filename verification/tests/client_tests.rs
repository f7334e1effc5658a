use narya::client::{
    check_subscription_draft, new_subscription_id, subscription_id, subscription_refresh_failure_summary,
    SubscriptionDraftError,
};
use narya::editor::RoutingTable;
use narya::framing::{check_frame_size, daemon_is_compatible, frame_length};
use narya::kernels::{
    DaemonReply, KernelArtifactDraft, KernelCatalog, KernelCatalogOption, KernelPanel, PowerNext,
};
use narya::routing::{GroupStrategy, RoutingGroup};
use narya::session::{
    ActiveView, IconName, NavTarget, PageKind,
    default_kernels, kernel_state_label, latency_status, log_tone, routing_mode_label, toggle_routing_mode,
    KernelChoice, KernelInfo, NaryaStatus, ProxyMode, RoutingToggle,
};
use narya::state::{
    push_log_line, record_log_line, routing_plan, ClientState, LogMessage, Notification, PersistedState, Preferences,
};
use narya::text::trimmed;

fn kernel(name: &str, installed: bool) -> KernelInfo {
    KernelInfo {
        name: name.to_string(),
        installed,
        version: None,
        running: false,
        healthy: false,
        state: if installed { "installed" } else { "not_installed" }.to_string(),
        failure: None,
    }
}

fn panel() -> KernelPanel {
    KernelPanel {
        kernels: vec![kernel("sing-box", true), kernel("mihomo", false)],
        active_kernel: "sing-box".to_string(),
        running: false,
        healthy: false,
        routing_mode: ProxyMode::SystemProxy,
        routing_configured: None,
        routing_active: ProxyMode::Disabled,
        operation: None,
        error: None,
    }
}

fn artifact(kernel: &str, sha256: &str) -> KernelArtifactDraft {
    KernelArtifactDraft {
        kernel: format!(" {kernel} "),
        version: "1.11.0".to_string(),
        source: "https://example.com/k.tar.gz".to_string(),
        sha256: sha256.to_string(),
        signature: " sig ".to_string(),
        public_key: String::new(),
    }
}

fn listing(kernel: &str, platform: &str) -> KernelCatalogOption {
    KernelCatalogOption {
        kernel: kernel.to_string(),
        version: "1.11.0".to_string(),
        platform: platform.to_string(),
        architecture: "x86_64".to_string(),
        source: "https://example.com/k.tar.gz".to_string(),
        sha256: "aa".to_string(),
        signature: String::new(),
        public_key: String::new(),
    }
}

#[test]
fn refresh_failures_are_summarised_on_one_line() {
    assert_eq!(subscription_refresh_failure_summary("订阅下载失败", "  "), "订阅下载失败：未知错误");
    assert_eq!(
        subscription_refresh_failure_summary("订阅解析失败", " bad\nyaml \n"),
        "订阅解析失败：bad yaml"
    );
    let long = "x".repeat(200);
    let summary = subscription_refresh_failure_summary("s", &long);
    assert_eq!(summary, format!("s：{}...", "x".repeat(180)));
    let exact = "y".repeat(180);
    assert_eq!(subscription_refresh_failure_summary("s", &exact), format!("s：{exact}"));
}

#[test]
fn subscription_drafts_are_checked() {
    let existing = vec!["https://a.example/sub".to_string()];
    assert_eq!(
        check_subscription_draft(" Mine ", " https://b.example/sub ", &existing),
        Ok(("Mine".to_string(), "https://b.example/sub".to_string()))
    );
    assert_eq!(
        check_subscription_draft("Mine", "http://b.example", &existing),
        Err(SubscriptionDraftError::Incomplete)
    );
    assert_eq!(check_subscription_draft("  ", "https://b.example", &existing), Err(SubscriptionDraftError::Incomplete));
    assert_eq!(
        check_subscription_draft("Dup", "https://a.example/sub", &existing),
        Err(SubscriptionDraftError::Duplicate)
    );
    assert_eq!(SubscriptionDraftError::Duplicate.message(), "该订阅地址已存在");
    assert_eq!(SubscriptionDraftError::Incomplete.message(), "订阅名称必填，地址必须使用 HTTPS");
}

#[test]
fn subscription_ids_come_from_the_clock() {
    assert_eq!(subscription_id(1700000000123456), "sub-1700000000123456");
    assert_eq!(subscription_id(-5), "sub--5");
    assert_eq!(subscription_id(0), "sub-0");
    let id = new_subscription_id();
    assert!(id.starts_with("sub-"));
    assert!(id.len() > 4);
}

#[test]
fn installing_from_the_form() {
    let mut p = panel();
    assert!(p.install_kernel(&artifact("mihomo", "  "), &vec![]).is_none());
    assert_eq!(p.error.as_deref(), Some("内核、版本、来源和 SHA-256 均为必填项"));
    let catalog = vec![listing("sing-box", "linux"), listing("mihomo", "darwin"), listing("mihomo", "linux")];
    let req = p.install_kernel(&artifact("mihomo", "ab"), &catalog).unwrap();
    assert!(!req.upgrade);
    assert_eq!(req.method(), "InstallKernel");
    assert_eq!(req.kernel, "mihomo");
    assert_eq!(req.signature, "sig");
    assert_eq!(req.catalog_platform, "darwin");
    assert_eq!(req.catalog_architecture, "x86_64");
    assert_eq!(p.operation.as_deref(), Some("正在安装内核…"));
    assert!(p.error.is_none());
    let req = p.install_kernel(&artifact("sing-box", "ab"), &vec![]).unwrap();
    assert!(req.upgrade);
    assert_eq!(req.method(), "UpgradeKernel");
    assert_eq!(req.catalog_platform, "");
    assert_eq!(p.operation.as_deref(), Some("正在升级内核…"));
}

#[test]
fn finishing_installs_and_uninstalls() {
    let mut p = panel();
    p.finish_install("mihomo", Ok(Some("1.19.0".to_string())));
    assert!(p.kernels[1].installed);
    assert_eq!(p.kernels[1].version.as_deref(), Some("1.19.0"));
    assert_eq!(p.kernels[1].state, "installed");
    assert_eq!(p.operation.as_deref(), Some("已完成：mihomo 1.19.0"));
    p.finish_install("mihomo", Ok(None));
    assert_eq!(p.operation.as_deref(), Some("已完成：mihomo unknown"));
    p.finish_install("mihomo", Err("checksum mismatch".to_string()));
    assert!(p.operation.is_none());
    assert_eq!(p.error.as_deref(), Some("checksum mismatch"));

    assert!(p.uninstall_kernel("mihomo"));
    assert_eq!(p.operation.as_deref(), Some("正在卸载 mihomo…"));
    p.finish_uninstall("mihomo", Ok(()));
    assert!(!p.kernels[1].installed);
    assert_eq!(p.kernels[1].state, "not_installed");
    assert_eq!(p.operation.as_deref(), Some("已卸载 mihomo"));
    assert!(!p.uninstall_kernel("mihomo"));
    assert_eq!(p.error.as_deref(), Some("内核 mihomo 当前未安装"));
    p.finish_uninstall("sing-box", Err("busy".to_string()));
    assert_eq!(p.error.as_deref(), Some("卸载失败：busy"));
    assert!(p.kernels[0].installed);
}

#[test]
fn official_installs_upgrade_installed_kernels() {
    let mut p = panel();
    assert!(p.install_kernel_named("sing-box"));
    assert_eq!(p.operation.as_deref(), Some("正在从官方目录升级 sing-box…"));
    assert!(!p.install_kernel_named("xray-core"));
    assert_eq!(p.operation.as_deref(), Some("正在从官方目录安装 xray-core…"));
}

#[test]
fn choosing_and_switching_kernels() {
    let mut p = panel();
    assert_eq!(p.select_kernel_and_start("mihomo"), KernelChoice::NotInstalled);
    assert_eq!(p.error.as_deref(), Some("内核 mihomo 尚未安装，不能切换"));
    assert_eq!(p.select_kernel_and_start("sing-box"), KernelChoice::Start);
    assert!(p.error.is_none());
    p.running = true;
    assert_eq!(p.select_kernel_and_start("sing-box"), KernelChoice::HotSwitch);
    assert!(!p.switch_kernel("sing-box", false));
    assert_eq!(p.error.as_deref(), Some("没有活动节点，无法热切换内核"));
    assert!(p.switch_kernel("sing-box", true));
    assert_eq!(p.operation.as_deref(), Some("正在热切换到 sing-box…"));
    p.finish_switch("sing-box", Err("refused".to_string()));
    assert_eq!(p.error.as_deref(), Some("内核热切换失败：refused"));
    p.finish_switch("mihomo", Ok(()));
    assert_eq!(p.active_kernel, "mihomo");
    assert!(p.running && p.healthy);
    assert_eq!(p.operation.as_deref(), Some("已切换到 mihomo"));
}

#[test]
fn starting_the_proxy_step_by_step() {
    let mut p = panel();
    assert_eq!(p.power_connected(true, true, Err("no socket".to_string())), PowerNext::Done);
    assert_eq!(p.error.as_deref(), Some("无法连接 daemon：no socket"));
    assert_eq!(p.power_connected(true, false, Ok(())), PowerNext::Done);
    assert_eq!(p.error.as_deref(), Some("没有活动节点，无法启动内核"));
    assert_eq!(p.power_connected(false, false, Ok(())), PowerNext::SendKernel);
    assert_eq!(p.power_connected(true, true, Ok(())), PowerNext::SendKernel);
    assert_eq!(
        p.power_kernel_replied(true, ProxyMode::Tun, DaemonReply::Accepted),
        PowerNext::SendRoutingMode(ProxyMode::Tun)
    );
    assert!(!p.running);
    assert_eq!(p.power_routing_replied(ProxyMode::Tun, DaemonReply::Refused("no tun".to_string())), PowerNext::RollBack);
    assert_eq!(p.error.as_deref(), Some("SetRoutingMode 失败：no tun"));
    assert!(!p.running);
    assert_eq!(p.power_routing_replied(ProxyMode::Tun, DaemonReply::Accepted), PowerNext::Done);
    assert!(p.running && p.healthy);
    assert_eq!(p.routing_active, ProxyMode::Tun);
}

#[test]
fn stopping_the_proxy_and_failures() {
    let mut p = panel();
    p.running = true;
    p.healthy = true;
    p.routing_active = ProxyMode::SystemProxy;
    assert_eq!(
        p.power_kernel_replied(true, ProxyMode::Tun, DaemonReply::Refused("bad config".to_string())),
        PowerNext::Done
    );
    assert_eq!(p.error.as_deref(), Some("StartKernel 失败：bad config"));
    assert_eq!(
        p.power_kernel_replied(false, ProxyMode::Tun, DaemonReply::Unreachable("broken pipe".to_string())),
        PowerNext::Done
    );
    assert_eq!(p.error.as_deref(), Some("StopKernel 传输失败：broken pipe"));
    assert!(p.running);
    assert_eq!(p.power_kernel_replied(false, ProxyMode::Tun, DaemonReply::Accepted), PowerNext::Done);
    assert!(!p.running && !p.healthy);
    assert_eq!(p.routing_active, ProxyMode::Disabled);
    assert_eq!(
        p.power_routing_replied(ProxyMode::Tun, DaemonReply::Unreachable("eof".to_string())),
        PowerNext::RollBack
    );
    assert_eq!(p.error.as_deref(), Some("SetRoutingMode 传输失败：eof"));
}

#[test]
fn routing_modes_and_status() {
    let mut p = panel();
    assert!(p.set_routing_mode(ProxyMode::Tun));
    assert_eq!(p.routing_mode, ProxyMode::Tun);
    p.running = true;
    assert!(!p.set_routing_mode(ProxyMode::SystemProxy));
    assert_eq!(p.routing_mode, ProxyMode::Tun);
    assert!(!p.switch_routing_mode("system_proxy", false));
    assert_eq!(p.error.as_deref(), Some("没有活动节点，无法切换路由模式"));
    assert!(p.switch_routing_mode("system_proxy", true));
    assert_eq!(p.operation.as_deref(), Some("正在切换到 system_proxy…"));
    p.finish_mode_switch(ProxyMode::SystemProxy, "system_proxy", Ok(()));
    assert_eq!(p.routing_mode, ProxyMode::SystemProxy);
    assert_eq!(p.operation.as_deref(), Some("已切换到 system_proxy"));
    p.finish_mode_switch(ProxyMode::Tun, "tun", Err("denied".to_string()));
    assert_eq!(p.error.as_deref(), Some("路由模式切换失败：denied"));
    assert_eq!(p.routing_mode, ProxyMode::SystemProxy);
    p.apply_routing_status(Some("tun".to_string()), ProxyMode::Disabled, true);
    assert!(!p.running);
    p.apply_routing_status(None, ProxyMode::Tun, true);
    assert!(p.running);
    p.apply_routing_status(None, ProxyMode::Tun, false);
    assert!(!p.running);
    p.apply_running(true);
    assert!(p.running);
    let mut ks = default_kernels();
    ks[2].running = true;
    ks[2].healthy = true;
    p.apply_kernel_status(ks);
    assert!(p.healthy);
    assert_eq!(p.kernels.len(), 4);
    p.replace_kernels(vec![]);
    assert!(p.kernels.is_empty());
    assert!(p.healthy);
}

#[test]
fn the_catalog_needs_a_source_and_key() {
    let mut c = KernelCatalog { source: " ".to_string(), trusted_key: "k".to_string(), status: None, entries: vec![] };
    assert!(c.refresh_kernel_catalog().is_none());
    assert_eq!(c.status.as_deref(), Some("清单来源和信任根公钥均为必填项"));
    c.source = " https://example.com/catalog ".to_string();
    assert_eq!(
        c.refresh_kernel_catalog(),
        Some(("https://example.com/catalog".to_string(), "k".to_string()))
    );
    assert_eq!(c.status.as_deref(), Some("正在验证内核发布清单…"));
    c.finish_refresh(Ok((vec![listing("sing-box", "linux")], Some("d1g".to_string()))));
    assert_eq!(c.entries.len(), 1);
    assert_eq!(c.status.as_deref(), Some("清单已验证 · d1g"));
    c.finish_refresh(Err("bad signature".to_string()));
    assert!(c.entries.is_empty());
    assert_eq!(c.status.as_deref(), Some("清单验证失败：bad signature"));
    c.finish_refresh(Ok((vec![], None)));
    assert_eq!(c.status.as_deref(), Some("清单已验证 · unknown"));
}

#[test]
fn labels_and_tones() {
    assert_eq!(routing_mode_label(ProxyMode::Tun), "TUN");
    assert_eq!(routing_mode_label(ProxyMode::SystemProxy), "系统代理");
    assert_eq!(kernel_state_label("running"), "运行中");
    assert_eq!(kernel_state_label("weird"), "未安装");
    assert_eq!(latency_status(89), NaryaStatus::Success);
    assert_eq!(latency_status(90), NaryaStatus::Warning);
    assert_eq!(latency_status(140), NaryaStatus::Danger);
    assert_eq!(log_tone("error"), NaryaStatus::Danger);
    assert_eq!(log_tone("Warn"), NaryaStatus::Warning);
    assert_eq!(log_tone("info"), NaryaStatus::Info);
    assert_eq!(toggle_routing_mode(false, ProxyMode::Tun, ProxyMode::Tun), RoutingToggle::ConfigureAndStart(ProxyMode::Tun));
    assert_eq!(toggle_routing_mode(true, ProxyMode::Tun, ProxyMode::Tun), RoutingToggle::Stop);
    assert_eq!(
        toggle_routing_mode(true, ProxyMode::Tun, ProxyMode::SystemProxy),
        RoutingToggle::Switch(ProxyMode::SystemProxy)
    );
    assert_eq!(trimmed("\t a b \n"), "a b");
}

#[test]
fn preferences_by_key() {
    let mut p = Preferences::new();
    assert!(p.close_to_tray && p.restore_proxy && p.auto_update && !p.autostart && !p.start_minimized);
    assert!(p.set_setting_value("autostart", true));
    assert!(p.autostart);
    assert!(!p.set_setting_value("unknown", true));
    assert_eq!(p, Preferences { autostart: true, ..Preferences::new() });
    p.set_appearance_mode(7);
    assert_eq!(p.appearance_mode, 2);
    p.set_appearance_mode(1);
    assert_eq!(p.appearance_mode, 1);
}

fn line(n: usize) -> LogMessage {
    LogMessage { time: String::new(), level: "INFO".to_string(), module: "core".to_string(), content: n.to_string() }
}

#[test]
fn the_log_keeps_the_last_thousand_lines() {
    let mut lines = Vec::new();
    for n in 0..1000 {
        push_log_line(&mut lines, line(n));
    }
    assert_eq!(lines.len(), 1000);
    push_log_line(&mut lines, line(1000));
    assert_eq!(lines.len(), 1000);
    assert_eq!(lines[0].content, "1");
    assert_eq!(lines[999].content, "1000");
    record_log_line(&mut lines, "WARN".to_string(), "slow".to_string());
    assert_eq!(lines.len(), 1000);
    assert_eq!(lines[999].module, "core");
    assert_eq!(lines[999].content, "slow");
    assert_eq!(lines[999].time.len(), 8);
}

#[test]
fn routing_plans_by_mode() {
    let plan = routing_plan(ProxyMode::SystemProxy);
    assert_eq!(plan.system_proxy.http_port, 2080);
    assert_eq!(plan.system_proxy.socks_port, 1080);
    assert_eq!(plan.system_proxy.bypass_domains, vec!["localhost", "127.0.0.1", "::1"]);
    assert!(plan.tun.is_none());
    assert!(!plan.dns.hijack);
    assert_eq!(plan.dns.resolver, vec!["https://1.1.1.1/dns-query"]);
    let plan = routing_plan(ProxyMode::Tun);
    let tun = plan.tun.unwrap();
    assert_eq!(tun.interface_name, "narya0");
    assert_eq!(tun.address, "172.19.0.1/30");
    assert_eq!(tun.excluded_routes, vec!["127.0.0.0/8", "224.0.0.0/4"]);
    assert!(plan.dns.hijack);
}

fn default_group() -> RoutingGroup {
    RoutingGroup {
        id: "proxy".to_string(),
        strategy: GroupStrategy::Select,
        members: vec![],
        url: None,
        interval_secs: None,
    }
}

fn persisted() -> PersistedState {
    PersistedState {
        active_node_id: Some("hk-01".to_string()),
        kernel_running: true,
        active_kernel: String::new(),
        selected_subscription_id: Some("sub-1".to_string()),
        rules: vec![],
        groups: vec![],
        rule_sets: vec![],
        preferences: Preferences { appearance_mode: 9, autostart: true, ..Preferences::new() },
    }
}

#[test]
fn default_state_contains_no_fabricated_runtime_data() {
    let (state, nodes, subscriptions) =
        ClientState::restore(persisted(), vec!["hk-01".to_string()], Vec::<String>::new(), default_group());
    assert!(nodes.is_empty());
    assert!(subscriptions.is_empty());
    assert!(state.active_node_id.is_none());
    assert!(state.selected_subscription_id.is_none());
    assert!(!state.panel.running);
    assert_eq!(state.panel.kernels.len(), 4);
    assert!(state.panel.kernels.iter().all(|k| !k.installed));
    assert_eq!(state.table.rules.len(), 4);
    assert_eq!(state.table.groups.len(), 1);
    assert_eq!(state.preferences, Preferences::new());
}

#[test]
fn a_saved_profile_keeps_its_nodes_and_subscriptions() {
    let (state, nodes, subscriptions) =
        ClientState::restore(persisted(), vec!["hk-01".to_string()], vec!["sub-1".to_string()], default_group());
    assert_eq!(nodes, vec!["hk-01".to_string()]);
    assert_eq!(subscriptions, vec!["sub-1".to_string()]);
    assert_eq!(state.active_node_id.as_deref(), Some("hk-01"));
}

#[test]
fn a_lost_daemon_shows_nothing_running() {
    let mut p = panel();
    p.running = true;
    p.healthy = true;
    p.routing_active = ProxyMode::Tun;
    p.daemon_lost();
    assert!(!p.running);
    assert!(!p.healthy);
    assert_eq!(p.routing_active, ProxyMode::Disabled);
    assert_eq!(p.routing_mode, ProxyMode::SystemProxy);
    assert_eq!(p.kernels.len(), 2);
}

#[test]
fn settings_page_texts() {
    assert_eq!(narya::overview::settings_category_title(0), "常规设置");
    assert_eq!(narya::overview::settings_category_title(4), "内核设置");
    assert_eq!(narya::overview::settings_category_title(10), "高级设置");
    assert_eq!(narya::overview::settings_category_title(11), "常规设置");
    let mut k = kernel("sing-box", true);
    assert_eq!(narya::overview::kernel_description(&k), "无版本 · 已安装，未运行 · 未运行");
    k.version = Some("1.11.0".to_string());
    k.running = true;
    k.state = "running".to_string();
    assert_eq!(narya::overview::kernel_description(&k), "1.11.0 · 运行中 · 异常");
    k.healthy = true;
    assert_eq!(narya::overview::kernel_description(&k), "1.11.0 · 运行中 · 健康");
}

#[test]
fn a_saved_profile_is_restored() {
    let state = ClientState::load_or_default(persisted(), true, default_group());
    assert_eq!(state.active_node_id.as_deref(), Some("hk-01"));
    assert_eq!(state.selected_subscription_id.as_deref(), Some("sub-1"));
    assert!(!state.panel.running);
    assert!(state.panel.kernels.is_empty());
    assert_eq!(state.panel.active_kernel, "sing-box");
    assert_eq!(state.kernel_artifact_kernel, "sing-box");
    assert_eq!(state.table.rules.len(), 4);
    assert_eq!(state.table.groups[0].id, "proxy");
    assert_eq!(state.preferences.appearance_mode, 2);
    assert!(state.preferences.autostart);
    assert_eq!(state.rule_action_filter, "all");
    assert_eq!(state.panel.routing_mode, ProxyMode::SystemProxy);

    let mut saved = persisted();
    saved.active_kernel = "mihomo".to_string();
    saved.groups = vec![RoutingGroup { id: "mine".to_string(), ..default_group() }];
    let state = ClientState::load_or_default(saved, true, default_group());
    assert_eq!(state.panel.active_kernel, "mihomo");
    assert_eq!(state.table.groups[0].id, "mine");
    let _: &RoutingTable = &state.table;
}

#[test]
fn frames_and_daemon_compatibility() {
    assert_eq!(frame_length([0, 0, 1, 2]), 258);
    assert_eq!(frame_length([1, 0, 0, 0]), 16777216);
    assert_eq!(check_frame_size(10, 16), Ok(10));
    assert_eq!(check_frame_size(17, 16), Err("IPC frame exceeds maximum size: 17 bytes".to_string()));
    let caps = Some(vec![None, Some("InstallOfficialKernel".to_string())]);
    assert!(daemon_is_compatible(Some("0.1.0".to_string()), caps.clone(), "0.1.0"));
    assert!(!daemon_is_compatible(Some("0.2.0".to_string()), caps.clone(), "0.1.0"));
    assert!(!daemon_is_compatible(Some("0.1.0".to_string()), Some(vec![Some("Other".to_string())]), "0.1.0"));
    assert!(!daemon_is_compatible(None, caps, "0.1.0"));
    assert!(!daemon_is_compatible(Some("0.1.0".to_string()), None, "0.1.0"));
}

#[test]
fn navigation_and_icons() {
    assert_eq!(NavTarget::from(ActiveView::About), NavTarget::Settings);
    assert_eq!(NavTarget::from(ActiveView::Rules), NavTarget::Rules);
    assert_eq!(ActiveView::from(NavTarget::Settings), ActiveView::Settings);
    assert_eq!(ActiveView::from(NavTarget::from(ActiveView::Logs)), ActiveView::Logs);
    assert_eq!(PageKind::from(ActiveView::About), PageKind::About);
    assert_eq!(IconName::ExternalLink.path(), "resources/assets/ic_external-link.svg");
    assert_eq!(IconName::Dashboard.path(), "resources/assets/ic_dashboard.svg");
}

#[test]
fn a_start_counts_only_when_the_daemon_confirms_it() {
    for (connect, node, kernel_ok, routing_ok) in [
        (true, true, true, true),
        (false, true, true, true),
        (true, false, true, true),
        (true, true, false, true),
        (true, true, true, false),
    ] {
        let mut p = panel();
        let mut next = p.power_connected(
            true,
            node,
            if connect { Ok(()) } else { Err("down".to_string()) },
        );
        if next == PowerNext::SendKernel {
            let reply = if kernel_ok { DaemonReply::Accepted } else { DaemonReply::Refused("no".to_string()) };
            next = p.power_kernel_replied(true, ProxyMode::Tun, reply);
        }
        if next == PowerNext::SendRoutingMode(ProxyMode::Tun) {
            let reply = if routing_ok { DaemonReply::Accepted } else { DaemonReply::Unreachable("eof".to_string()) };
            p.power_routing_replied(ProxyMode::Tun, reply);
        }
        let confirmed = connect && node && kernel_ok && routing_ok;
        assert_eq!(p.running, confirmed);
        assert_eq!(p.error.is_some(), !confirmed);
    }
}

#[test]
fn page_summaries() {
    let stats = narya::overview::latency_stats(&vec![Some(80), None, Some(40), Some(40), None]);
    assert_eq!(stats.measured, 3);
    assert_eq!(stats.failed, 2);
    assert_eq!(stats.average, Some(53));
    assert_eq!(stats.fastest, Some(2));
    let none = narya::overview::latency_stats(&vec![None, None]);
    assert_eq!(none.average, None);
    assert_eq!(none.fastest, None);
    assert_eq!(narya::overview::credential_status("  "), "未配置");
    assert_eq!(narya::overview::credential_status("NoNe"), "未配置");
    assert_eq!(narya::overview::credential_status("uuid:1"), "已配置");
    let mut ks = default_kernels();
    assert_eq!(narya::overview::kernel_label(&ks, "mihomo"), "mihomo 未安装");
    ks[1].version = Some("1.19.0".to_string());
    assert_eq!(narya::overview::kernel_label(&ks, "mihomo"), "mihomo 1.19.0");
    assert_eq!(narya::overview::kernel_status(false, &ks), ("需要可信工件", NaryaStatus::Warning));
    ks[3].installed = true;
    assert_eq!(narya::overview::kernel_status(false, &ks), ("已安装，未运行", NaryaStatus::Warning));
    assert_eq!(narya::overview::kernel_status(true, &ks), ("健康运行", NaryaStatus::Success));
}

#[test]
fn uninstalling_right_after_installing_undoes_the_install() {
    let mut both = panel();
    both.finish_install("mihomo", Ok(Some("1.19.0".to_string())));
    both.finish_uninstall("mihomo", Ok(()));
    let mut alone = panel();
    alone.finish_uninstall("mihomo", Ok(()));
    assert_eq!(both.kernels.len(), alone.kernels.len());
    for (a, b) in both.kernels.iter().zip(alone.kernels.iter()) {
        assert_eq!(a.name, b.name);
        assert_eq!(a.installed, b.installed);
        assert_eq!(a.version, b.version);
        assert_eq!(a.state, b.state);
        assert_eq!(a.running, b.running);
        assert_eq!(a.healthy, b.healthy);
        assert_eq!(a.failure, b.failure);
    }
}

#[test]
fn notifications_update_the_state() {
    let mut state = ClientState::load_or_default(persisted(), true, default_group());
    state.handle_notification(Notification::StatusUpdate { running: true });
    assert!(state.panel.running);
    state.handle_notification(Notification::LogLine { level: "ERROR".to_string(), message: "boom".to_string() });
    assert_eq!(state.log_lines.len(), 1);
    assert_eq!(state.log_lines[0].module, "core");
    assert_eq!(state.log_lines[0].content, "boom");
    let t: Vec<char> = state.log_lines[0].time.chars().collect();
    assert_eq!(t.len(), 8);
    assert!(t[2] == ':' && t[5] == ':' && t.iter().enumerate().all(|(i, c)| i == 2 || i == 5 || c.is_ascii_digit()));
    state.handle_notification(Notification::KernelStatusUpdate { kernels: default_kernels() });
    assert_eq!(state.panel.kernels.len(), 4);
    assert!(state.panel.running);
    assert_eq!(state.active_node_id.as_deref(), Some("hk-01"));
}

#[test]
fn saving_and_restoring_keeps_the_profile() {
    let mut state = ClientState::load_or_default(persisted(), true, default_group());
    state.panel.active_kernel = "mihomo".to_string();
    state.panel.running = true;
    state.preferences.appearance_mode = 1;
    let saved = state.persisted();
    assert!(saved.kernel_running);
    let restored = ClientState::load_or_default(saved, true, default_group());
    assert_eq!(restored.active_node_id, state.active_node_id);
    assert_eq!(restored.selected_subscription_id, state.selected_subscription_id);
    assert_eq!(restored.panel.active_kernel, "mihomo");
    assert!(!restored.panel.running);
    assert_eq!(restored.table.rules.len(), state.table.rules.len());
    assert_eq!(restored.table.groups.len(), state.table.groups.len());
    assert_eq!(restored.preferences, state.preferences);
}

#[test]
fn stopping_changes_the_flags_only_when_confirmed() {
    let mut p = panel();
    p.running = true;
    p.healthy = true;
    p.routing_active = ProxyMode::Tun;
    assert_eq!(p.power_connected(false, false, Err("gone".to_string())), PowerNext::Done);
    assert!(p.running && p.healthy);
    assert_eq!(p.routing_active, ProxyMode::Tun);
    assert_eq!(p.power_connected(false, false, Ok(())), PowerNext::SendKernel);
    assert_eq!(p.power_kernel_replied(false, ProxyMode::Tun, DaemonReply::Accepted), PowerNext::Done);
    assert!(!p.running && !p.healthy);
    assert_eq!(p.routing_active, ProxyMode::Disabled);
}

#[test]
fn kernel_rows_and_protocol_counts() {
    let mut k = kernel("sing-box", true);
    k.running = true;
    let a = narya::overview::kernel_actions(&k, "sing-box");
    assert!(a.active && !a.busy && a.installed && !a.manage_enabled && a.install_enabled);
    let mut m = kernel("mihomo", false);
    m.state = "installing".to_string();
    let a = narya::overview::kernel_actions(&m, "sing-box");
    assert!(!a.active && a.busy && !a.installed && !a.install_enabled);
    let protocols = vec!["Shadowsocks".to_string(), "VMess".to_string(), "SS".to_string()];
    let names = vec!["ss".to_string(), "shadowsocks".to_string()];
    assert_eq!(narya::overview::protocol_count(&protocols, &names), 2);
}

#[test]
fn refresh_keeps_other_subscriptions_nodes() {
    let tags = vec![Some("a".to_string()), None, Some("b".to_string()), Some("a".to_string()), Some("c".to_string())];
    assert_eq!(narya::client::kept_after_refresh(&tags, "a"), vec![1, 2, 4]);
    assert_eq!(narya::client::kept_after_refresh(&tags, "z"), vec![0, 1, 2, 3, 4]);
    let ids = vec!["x".to_string(), "y".to_string(), "y".to_string()];
    assert_eq!(narya::client::find_id(&ids, "y"), Some(1));
    assert_eq!(narya::client::find_id(&ids, "q"), None);
}
