use narya::bundle::{check_bundle, export_status, BundleError, RoutingBundle};
use narya::conditions::{cidr_parts, condition_editor_value, parse_condition, ConditionEdit, ConditionError};
use narya::editor::{default_rules, ConditionRemoval, GroupRemoval, IntervalUpdate, RoutingTable};
use narya::routing::{
    condition_default_value, condition_kind_label, group_strategy_label, parse_rule_set_format, rule_action_key,
    rule_action_summary, rule_action_value, Action, Condition, GroupStrategy, RoutingGroup, Rule, RuleSetFormat,
    RuleSetSource,
};
use narya::rulesets::{blank_rule_set_draft, chars_less, sort_rule_sets_by_id, RuleSetAddition, RuleSetDraft};
use narya::table::{numbered, sort_rules_by_priority};
use narya::tracker::IpAddress;

fn rule(id: &str, priority: i32, conditions: Vec<Condition>, action: Action) -> Rule {
    Rule { id: id.to_string(), priority, conditions, action }
}

fn group(id: &str) -> RoutingGroup {
    RoutingGroup {
        id: id.to_string(),
        strategy: GroupStrategy::Select,
        members: vec!["node".to_string()],
        url: None,
        interval_secs: None,
    }
}

fn rule_set(id: &str, enabled: bool) -> RuleSetSource {
    RuleSetSource {
        id: id.to_string(),
        source: format!("/etc/narya/{id}.srs"),
        version: "1".to_string(),
        sha256: "abc".to_string(),
        format: RuleSetFormat::SingBoxBinary,
        enabled,
        signature: String::new(),
        public_key: String::new(),
    }
}

fn table() -> RoutingTable {
    RoutingTable {
        rules: vec![
            rule("a", 10, vec![Condition::DomainSuffix("lan".to_string())], Action::Direct),
            rule(
                "b",
                20,
                vec![Condition::RuleSet("ads".to_string()), Condition::Port(443)],
                Action::Proxy("streaming".to_string()),
            ),
        ],
        groups: vec![group("proxy"), group("streaming"), group("spare")],
        rule_sets: vec![rule_set("ads", true), rule_set("cn", true)],
        rule_editor_error: None,
        group_error: None,
        rule_set_error: None,
    }
}

fn ids(rules: &[Rule]) -> Vec<String> {
    rules.iter().map(|r| r.id.clone()).collect()
}

#[test]
fn default_rules_route_private_and_ai_traffic() {
    let rules = default_rules();
    assert_eq!(ids(&rules), vec!["private-network", "local-domains", "ai-services", "default-block"]);
    assert_eq!(rules.iter().map(|r| r.priority).collect::<Vec<_>>(), vec![10, 20, 100, 1000]);
    assert!(matches!(
        rules[0].conditions[..],
        [Condition::IpCidr { network: IpAddress::V4([192, 168, 0, 0]), prefix: 16 }]
    ));
    assert!(matches!(&rules[2].action, Action::Proxy(g) if g == "proxy"));
    assert!(matches!(rules[3].action, Action::Block));
    assert!(matches!(rules[3].conditions[..], [Condition::Any]));
}

#[test]
fn priority_sort_is_stable() {
    let rules = vec![
        rule("x", 30, vec![], Action::Direct),
        rule("y", 10, vec![], Action::Direct),
        rule("z", 30, vec![], Action::Block),
        rule("w", 10, vec![], Action::Block),
    ];
    let sorted = sort_rules_by_priority(rules);
    assert_eq!(ids(&sorted), vec!["y", "w", "x", "z"]);
}

#[test]
fn setting_actions_by_target() {
    let mut t = table();
    assert!(t.set_rule_action("a", "block"));
    assert!(matches!(t.rules[0].action, Action::Block));
    assert!(t.set_rule_action("a", "dns:dns:local"));
    assert!(matches!(&t.rules[0].action, Action::Dns(s) if s == "local"));
    assert!(t.set_rule_action("a", "streaming"));
    assert!(matches!(&t.rules[0].action, Action::Proxy(s) if s == "streaming"));
    assert!(t.set_rule_action("a", "   "));
    assert!(matches!(&t.rules[0].action, Action::Proxy(s) if s == "streaming"));
    assert!(!t.set_rule_action("nope", "direct"));
}

#[test]
fn rule_priorities_and_additions_keep_the_order() {
    let mut t = table();
    assert!(t.set_rule_priority("a", 50));
    assert_eq!(ids(&t.rules), vec!["b", "a"]);
    t.add_rule();
    assert_eq!(ids(&t.rules), vec!["b", "a", "custom-3"]);
    assert_eq!(t.rules[2].priority, 60);
    t.remove_rule("a");
    assert_eq!(ids(&t.rules), vec!["b", "custom-3"]);
}

#[test]
fn conditions_are_added_and_removed() {
    let mut t = table();
    assert!(t.add_rule_condition("a"));
    assert_eq!(t.rules[0].conditions.len(), 2);
    assert_eq!(t.remove_rule_condition("a", 5), ConditionRemoval::NoSuchCondition);
    assert_eq!(t.remove_rule_condition("a", 0), ConditionRemoval::Removed);
    assert_eq!(t.rules[0].conditions.len(), 1);
    assert_eq!(t.remove_rule_condition("a", 0), ConditionRemoval::LastCondition);
    assert_eq!(t.rule_editor_error.as_deref(), Some("规则至少需要一个条件"));
    assert_eq!(t.remove_rule_condition("missing", 0), ConditionRemoval::NoSuchRule);
}

#[test]
fn groups_in_use_or_built_in_stay() {
    let mut t = table();
    assert_eq!(t.remove_group("proxy"), GroupRemoval::Protected);
    assert_eq!(t.remove_group("streaming"), GroupRemoval::Referenced);
    assert_eq!(t.group_error.as_deref(), Some("分流组 streaming 仍被规则引用，请先修改这些规则的动作"));
    assert_eq!(t.remove_group("spare"), GroupRemoval::Removed);
    assert_eq!(t.groups.len(), 2);
    assert!(t.group_error.is_none());
    t.add_group();
    assert_eq!(t.groups[2].id, "proxy-3");
    assert_eq!(t.groups[2].members, vec!["proxy-node".to_string()]);
}

#[test]
fn group_settings() {
    let mut t = table();
    assert_eq!(t.set_group_strategy("spare", 1), Some(2));
    assert_eq!(t.groups[2].strategy, GroupStrategy::UrlTest);
    assert_eq!(t.groups[2].url.as_deref(), Some("https://www.gstatic.com/generate_204"));
    assert_eq!(t.set_group_members("spare", " a, ,b ,"), Some(2));
    assert_eq!(t.groups[2].members, vec!["a".to_string(), "b".to_string()]);
    assert_eq!(t.set_group_interval("spare", " 300 "), IntervalUpdate::Updated);
    assert_eq!(t.groups[2].interval_secs, Some(300));
    assert_eq!(t.set_group_interval("spare", "0"), IntervalUpdate::Invalid);
    assert_eq!(t.group_error.as_deref(), Some("URL 测试间隔必须是正整数秒"));
    assert_eq!(t.set_group_interval("ghost", "5"), IntervalUpdate::NoSuchGroup);
    assert_eq!(t.set_group_strategy("ghost", 1), None);
    assert!(!t.finish_group_edit(Some("bad".to_string())));
    assert_eq!(t.group_error.as_deref(), Some("分流组校验失败：bad"));
    assert!(t.finish_group_edit(None));
    assert!(t.group_error.is_none());
}

#[test]
fn rule_sets_in_use_cannot_be_removed_or_disabled() {
    let mut t = table();
    assert!(!t.remove_rule_set("ads"));
    assert_eq!(t.rule_set_error.as_deref(), Some("规则集 ads 仍被规则引用，请先移除规则条件"));
    assert!(!t.set_rule_set_enabled("ads", false));
    assert_eq!(t.rule_set_error.as_deref(), Some("规则集 ads 仍被规则引用，不能禁用；请先修改这些规则"));
    assert!(t.set_rule_set_enabled("cn", false));
    assert!(!t.rule_sets[1].enabled);
    assert!(t.remove_rule_set("cn"));
    assert_eq!(t.rule_sets.len(), 1);
}

#[test]
fn conditions_are_parsed_by_kind() {
    assert!(matches!(parse_condition("domain", " a.com ", None), Ok(Condition::Domain(d)) if d == "a.com"));
    assert!(matches!(parse_condition("port", "443", None), Ok(Condition::Port(443))));
    assert_eq!(parse_condition("port", "70000", None).err(), Some(ConditionError::Port));
    assert_eq!(parse_condition("domain", "  ", None).err(), Some(ConditionError::Unsupported));
    assert_eq!(parse_condition("ip_cidr", "10.0.0.0", None).err(), Some(ConditionError::CidrFormat));
    assert_eq!(parse_condition("ip_cidr", "nope/8", None).err(), Some(ConditionError::CidrAddress));
    let ten = Some(IpAddress::V4([10, 0, 0, 0]));
    assert_eq!(parse_condition("ip_cidr", "10.0.0.0/x", ten).err(), Some(ConditionError::CidrPrefix));
    assert!(matches!(
        parse_condition("ip_cidr", " 10.0.0.0/8 ", ten),
        Ok(Condition::IpCidr { network: IpAddress::V4([10, 0, 0, 0]), prefix: 8 })
    ));
    assert!(matches!(parse_condition("any", "", None), Ok(Condition::Any)));
    assert_eq!(ConditionError::CidrPrefix.message(), "CIDR 前缀无效");
    assert_eq!(cidr_parts(" 10.0.0.0/8 "), Some(("10.0.0.0".to_string(), "8".to_string())));
    assert_eq!(cidr_parts("10.0.0.0"), None);
}

#[test]
fn editing_a_condition() {
    let mut t = table();
    assert_eq!(t.set_rule_condition("b", 1, "port", "8443", None), ConditionEdit::Replaced);
    assert!(matches!(t.rules[1].conditions[1], Condition::Port(8443)));
    assert_eq!(t.set_rule_condition("b", 9, "port", "1", None), ConditionEdit::StaleIndex);
    assert_eq!(t.set_rule_condition("b", 0, "port", "x", None), ConditionEdit::Invalid(ConditionError::Port));
    assert_eq!(t.rule_editor_error.as_deref(), Some("端口必须是 1-65535 的整数"));
    assert_eq!(t.set_rule_condition("zz", 0, "any", "", None), ConditionEdit::NoSuchRule);
}

fn bundle() -> RoutingBundle {
    let t = table();
    RoutingBundle { version: 1, rules: t.rules, groups: t.groups, rule_sets: t.rule_sets }
}

#[test]
fn bundles_are_checked_in_order() {
    assert!(check_bundle(&bundle(), None, &vec![], &vec![]).is_ok());
    let mut b = bundle();
    b.version = 2;
    let e = check_bundle(&b, None, &vec![], &vec![]).unwrap_err();
    assert_eq!(e.message(), "不支持的规则配置版本 2");
    let e = check_bundle(&bundle(), Some("boom".to_string()), &vec![], &vec![]).unwrap_err();
    assert_eq!(e.message(), "规则校验失败：boom");
    let mut b = bundle();
    b.groups.push(group("spare"));
    assert!(matches!(check_bundle(&b, None, &vec![], &vec![]), Err(BundleError::DuplicateGroup(id)) if id == "spare"));
    let mut b = bundle();
    b.rule_sets[0].enabled = false;
    let e = check_bundle(&b, None, &vec![], &vec![]).unwrap_err();
    assert_eq!(e.message(), "规则 b 引用了已禁用规则集 ads");
    let mut b = bundle();
    b.rule_sets.remove(0);
    let e = check_bundle(&b, None, &vec![], &vec![]).unwrap_err();
    assert_eq!(e.message(), "规则 b 引用了未知规则集 ads");
    let mut b = bundle();
    b.groups.remove(1);
    let e = check_bundle(&b, None, &vec![], &vec![]).unwrap_err();
    assert_eq!(e.message(), "规则 b 引用了未知分流组 streaming");
    let e = check_bundle(&bundle(), None, &vec![None, Some("bad".to_string())], &vec![]).unwrap_err();
    assert_eq!(e.message(), "分流组校验失败：bad");
}

#[test]
fn importing_and_exporting() {
    let mut t = table();
    t.rule_editor_error = Some("old".to_string());
    let mut b = bundle();
    b.rules.truncate(1);
    let status = t.import_rules("/tmp/rules.json", Ok(b));
    assert_eq!(status, "已导入 /tmp/rules.json");
    assert_eq!(t.rules.len(), 1);
    assert!(t.rule_editor_error.is_none());
    let status = t.import_rules("/tmp/rules.json", Err("missing".to_string()));
    assert_eq!(status, "导入失败：missing");
    assert_eq!(t.rules.len(), 1);
    assert_eq!(export_status("/tmp/out.json", Ok(())), "已导出到 /tmp/out.json");
    assert_eq!(export_status("/tmp/out.json", Err("denied".to_string())), "导出失败：denied");
}

fn draft(id: &str, source: &str) -> RuleSetDraft {
    RuleSetDraft {
        id: format!(" {id} "),
        source: source.to_string(),
        version: " 2 ".to_string(),
        sha256: "ff".to_string(),
        format: "domain".to_string(),
        signature: String::new(),
        public_key: String::new(),
    }
}

#[test]
fn local_rule_sets_are_added_in_id_order() {
    let mut t = table();
    let mut d = draft("bb", "file:///srv/bb.srs");
    assert!(matches!(t.add_rule_set_with(&mut d, None, false), (RuleSetAddition::Added, None)));
    assert_eq!(t.rule_sets.iter().map(|s| s.id.as_str()).collect::<Vec<_>>(), vec!["ads", "bb", "cn"]);
    assert_eq!(t.rule_sets[1].version, "2");
    assert_eq!(t.rule_sets[1].format, RuleSetFormat::Domain);
    assert!(t.rule_sets[1].enabled);
    assert!(d.id.is_empty() && d.source.is_empty() && d.format.is_empty());
    assert!(t.rule_set_error.is_none());
}

#[test]
fn rule_set_additions_that_are_refused() {
    let mut t = table();
    let mut d = draft("new", "relative/path.srs");
    assert!(matches!(t.add_rule_set_with(&mut d, None, false), (RuleSetAddition::NotAbsolute, None)));
    assert_eq!(t.rule_set_error.as_deref(), Some("规则集必须使用绝对本地路径或 file:// 路径"));
    assert_eq!(d.id, " new ");
    assert!(matches!(t.add_rule_set_with(&mut d, Some("no hash".to_string()), true), (RuleSetAddition::Invalid, None)));
    assert_eq!(t.rule_set_error.as_deref(), Some("规则集校验失败：no hash"));
    let mut dup = draft("cn", "/srv/cn.srs");
    assert!(matches!(t.add_rule_set_with(&mut dup, None, true), (RuleSetAddition::Duplicate, None)));
    assert_eq!(t.rule_set_error.as_deref(), Some("规则集 ID 已存在：cn"));
    assert_eq!(t.rule_sets.len(), 2);
}

#[test]
fn remote_rule_sets_wait_for_the_daemon() {
    let mut t = table();
    let mut d = draft("remote", "https://example.com/r.srs");
    let source = match t.add_rule_set_with(&mut d, None, false) {
        (RuleSetAddition::Fetching, Some(s)) => s,
        _ => panic!("expected a fetch"),
    };
    assert_eq!(source.id, "remote");
    assert_eq!(t.rule_set_error.as_deref(), Some("正在验证并缓存 remote…"));
    assert_eq!(t.rule_sets.len(), 2);
    assert!(!t.finish_rule_set_fetch(&mut d, source.clone(), Err("timeout".to_string())));
    assert_eq!(t.rule_set_error.as_deref(), Some("规则集更新失败：timeout"));
    assert!(t.finish_rule_set_fetch(&mut d, source.clone(), Ok(())));
    assert_eq!(t.rule_sets.iter().map(|s| s.id.as_str()).collect::<Vec<_>>(), vec!["ads", "cn", "remote"]);
    assert_eq!(t.rule_set_error.as_deref(), Some("已验证并缓存 remote"));
    assert!(d.id.is_empty());
    assert!(!t.finish_rule_set_fetch(&mut d, source, Ok(())));
    assert_eq!(t.rule_sets.len(), 3);
}

#[test]
fn remote_rule_sets_are_sent_to_the_daemon_even_when_refused() {
    let mut t = table();
    let mut dup = draft("cn", "https://example.com/cn.srs");
    match t.add_rule_set_with(&mut dup, None, false) {
        (RuleSetAddition::Duplicate, Some(s)) => assert_eq!(s.source, "https://example.com/cn.srs"),
        _ => panic!("expected a duplicate that is still fetched"),
    }
    let mut invalid = draft("bad", "https://example.com/bad.srs");
    match t.add_rule_set_with(&mut invalid, Some("no hash".to_string()), false) {
        (RuleSetAddition::Invalid, Some(s)) => assert_eq!(s.id, "bad"),
        _ => panic!("expected an invalid set that is still fetched"),
    }
    assert_eq!(t.rule_sets.len(), 2);
}

#[test]
fn rule_sets_sort_by_id_stably() {
    let mut a = rule_set("b", true);
    a.version = "first".to_string();
    let mut b = rule_set("b", true);
    b.version = "second".to_string();
    let sorted = sort_rule_sets_by_id(vec![a, rule_set("ab", true), b, rule_set("a", true), rule_set("B", true)]);
    let ids: Vec<_> = sorted.iter().map(|s| s.id.as_str()).collect();
    assert_eq!(ids, vec!["B", "a", "ab", "b", "b"]);
    assert_eq!(sorted[3].version, "first");
    assert_eq!(sorted[4].version, "second");
    assert!(chars_less(&vec!['a'], &vec!['a', 'b']));
    assert!(!chars_less(&vec!['b'], &vec!['a', 'z']));
    let blank = blank_rule_set_draft();
    assert!(blank.public_key.is_empty());
}

#[test]
fn labels_and_form_values() {
    assert_eq!(parse_rule_set_format("ip_cidr"), RuleSetFormat::IpCidr);
    assert_eq!(parse_rule_set_format("whatever"), RuleSetFormat::SingBoxBinary);
    assert_eq!(group_strategy_label(GroupStrategy::LoadBalance), "负载均衡");
    assert_eq!(rule_action_key(&Action::Dns("x".to_string())), "dns");
    assert_eq!(rule_action_value(&Action::Dns("x".to_string())), "dns:x");
    assert_eq!(rule_action_summary(&Action::Proxy("hk".to_string())), "代理 · hk");
    assert_eq!(condition_kind_label("port"), "端口");
    assert_eq!(condition_default_value("port"), "443");
    assert_eq!(numbered("custom-", 12), "custom-12");
}

#[test]
fn rules_page_search() {
    let r = rule("AI-Services", 100, vec![], Action::Proxy("HK".to_string()));
    assert!(narya::overview::rule_is_shown(&r, "", "all", ""));
    assert!(narya::overview::rule_is_shown(&r, "ai-", "proxy", ""));
    assert!(!narya::overview::rule_is_shown(&r, "ai-", "direct", ""));
    assert!(narya::overview::rule_is_shown(&r, "hk", "all", ""));
    assert!(narya::overview::rule_is_shown(&r, "OPENAI", "all", "域名后缀 · openai.com"));
    assert!(!narya::overview::rule_is_shown(&r, "google", "all", "域名后缀 · openai.com"));
}

#[test]
fn paths_are_checked_for_being_absolute() {
    let mut t = table();
    let mut d = draft("local", "relative/local.srs");
    assert!(matches!(t.add_rule_set(&mut d, None), (RuleSetAddition::NotAbsolute, None)));
    let mut d = draft("local", " /srv/narya/local.srs ");
    assert!(matches!(t.add_rule_set(&mut d, None), (RuleSetAddition::Added, None)));
    assert_eq!(t.rule_sets[2].source, "/srv/narya/local.srs");
    assert_eq!(
        narya::bundle::check_bundle_path("rules.json"),
        Err("导入导出路径必须是绝对路径".to_string())
    );
    assert_eq!(narya::bundle::check_bundle_path("/tmp/rules.json"), Ok(()));
}

#[test]
fn sorting_sorted_tables_changes_nothing() {
    let rules = sort_rules_by_priority(vec![
        rule("a", 1, vec![], Action::Direct),
        rule("b", 1, vec![], Action::Block),
        rule("c", 5, vec![], Action::Direct),
    ]);
    assert_eq!(ids(&rules), vec!["a", "b", "c"]);
    let sets = sort_rule_sets_by_id(vec![rule_set("a", true), rule_set("b", false), rule_set("c", true)]);
    assert_eq!(sets.iter().map(|s| s.id.as_str()).collect::<Vec<_>>(), vec!["a", "b", "c"]);
    assert!(!sets[1].enabled);
}

#[test]
fn export_then_import_restores_the_table() {
    let t = table();
    let exported = t.export_bundle();
    assert_eq!(exported.version, 1);
    let mut u = table();
    u.rules.clear();
    u.groups.truncate(1);
    let status = u.import_rules("/tmp/b.json", Ok(exported));
    assert_eq!(status, "已导入 /tmp/b.json");
    assert_eq!(ids(&u.rules), ids(&t.rules));
    assert_eq!(u.groups.len(), 3);
    assert_eq!(u.rule_sets.len(), 2);
    assert_eq!(narya::bundle::bundle_path_verdict(true), Ok(()));
    assert_eq!(narya::bundle::bundle_path_verdict(false), Err("导入导出路径必须是绝对路径".to_string()));
}

#[test]
fn editor_values_read_back_as_their_conditions() {
    let cidr = Condition::IpCidr { network: IpAddress::V4([10, 0, 0, 0]), prefix: 8 };
    let (kind, value) = condition_editor_value(&cidr, "10.0.0.0");
    assert_eq!(kind, "ip_cidr");
    assert_eq!(value, "10.0.0.0/8");
    assert!(matches!(
        parse_condition(&kind, &value, Some(IpAddress::V4([10, 0, 0, 0]))),
        Ok(Condition::IpCidr { network: IpAddress::V4([10, 0, 0, 0]), prefix: 8 })
    ));
    let (kind, value) = condition_editor_value(&Condition::Port(443), "");
    assert_eq!((kind.as_str(), value.as_str()), ("port", "443"));
    assert!(matches!(parse_condition(&kind, &value, None), Ok(Condition::Port(443))));
    let (kind, value) = condition_editor_value(&Condition::DomainSuffix("openai.com".to_string()), "");
    assert_eq!(kind, "domain_suffix");
    assert!(matches!(parse_condition(&kind, &value, None), Ok(Condition::DomainSuffix(s)) if s == "openai.com"));
    let (kind, value) = condition_editor_value(&Condition::Any, "");
    assert_eq!((kind.as_str(), value.as_str()), ("any", ""));
}
