use narya::diff::ConfigDiff;
use narya::matcher::{DomainSuffixMatcher, Matcher, ProcessNameMatcher, RuleEngine, UnsupportedRule};
use narya::model::{Action, GroupType, NaryaConfig, Proxy, ProxyGroup, Rule, RuleType};
use narya::node::{hello_core, NodeDetails, ProtocolOptions};
use narya::parser::{ParseError, SubscriptionParser, SubscriptionPayload};
use narya::persistent::PersistentState;
use narya::tracker::{ConnectionMeta, IpAddress, Protocol};
use narya::transformer::{Outbound, RouteMatch, Transformer, UnsupportedProtocol};
use narya::yaml::{YamlNumber, YamlValue};

fn meta_for(process: Option<&str>) -> ConnectionMeta {
    ConnectionMeta {
        protocol: Protocol::Tcp,
        src_ip: IpAddress::V4([127, 0, 0, 1]),
        src_port: 12345,
        dst_ip: IpAddress::V4([1, 1, 1, 1]),
        dst_port: 443,
        pid: Some(1234),
        process_name: process.map(|p| p.to_string()),
        process_path: None,
        package_name: None,
        bundle_id: None,
    }
}

#[test]
fn test_config_diff() {
    let old_config = NaryaConfig::default();
    let mut new_config = old_config.clone();

    assert!(!ConfigDiff::calculate(&old_config, &new_config).has_changes());

    new_config.settings.mixed_port = 8888;
    let diff = ConfigDiff::calculate(&old_config, &new_config);
    assert!(diff.settings_changed);
    assert!(diff.has_changes());

    let mut group_config = new_config.clone();
    group_config.groups.push(ProxyGroup {
        name: "TestGroup".to_string(),
        group_type: GroupType::Select,
        proxies: vec!["Proxy1".to_string()],
    });
    let diff = ConfigDiff::calculate(&new_config, &group_config);
    assert_eq!(diff.groups_changed, vec!["TestGroup".to_string()]);
}

#[test]
fn test_process_name_matching() {
    let rules = vec![Rule {
        name: "Proxy Telegram".to_string(),
        rule_type: RuleType::ProcessName,
        payload: vec!["telegram".to_string(), "Telegram".to_string()],
        action: Action::Proxy("Overseas".to_string()),
    }];
    let engine = RuleEngine::new(rules, Action::Direct).unwrap();

    let mut meta = meta_for(Some("telegram-desktop"));

    assert_eq!(engine.match_rule(&meta), &Action::Proxy("Overseas".to_string()));

    meta.process_name = Some("browser".to_string());
    assert_eq!(engine.match_rule(&meta), &Action::Direct);
}

#[test]
fn diff_of_identical_configs_is_empty() {
    let mut config = NaryaConfig::default();
    config.groups.push(ProxyGroup {
        name: "A".to_string(),
        group_type: GroupType::UrlTest,
        proxies: vec!["x".to_string()],
    });
    config.rules.push(Rule {
        name: "r".to_string(),
        rule_type: RuleType::Domain,
        payload: vec!["example.com".to_string()],
        action: Action::Reject,
    });
    let diff = ConfigDiff::calculate(&config, &config.clone());
    assert!(!diff.has_changes());
    assert!(diff.groups_changed.is_empty());
}

#[test]
fn diff_names_changed_and_removed_groups() {
    let mut old = NaryaConfig::default();
    old.groups.push(ProxyGroup { name: "Keep".to_string(), group_type: GroupType::Select, proxies: vec![] });
    old.groups.push(ProxyGroup { name: "Gone".to_string(), group_type: GroupType::Select, proxies: vec![] });
    let mut new = NaryaConfig::default();
    new.groups.push(ProxyGroup { name: "Keep".to_string(), group_type: GroupType::Fallback, proxies: vec![] });
    new.rules.push(Rule {
        name: "r".to_string(),
        rule_type: RuleType::IpCidr,
        payload: vec![],
        action: Action::Direct,
    });
    let diff = ConfigDiff::calculate(&old, &new);
    assert_eq!(diff.groups_changed, vec!["Keep".to_string(), "Gone".to_string()]);
    assert!(diff.rules_changed);
    assert!(!diff.settings_changed);
    assert!(!diff.subscriptions_changed);
}

#[test]
fn engine_takes_first_matching_rule() {
    let rules = vec![
        Rule {
            name: "first".to_string(),
            rule_type: RuleType::ProcessName,
            payload: vec!["gram".to_string()],
            action: Action::Proxy("A".to_string()),
        },
        Rule {
            name: "suffix".to_string(),
            rule_type: RuleType::DomainSuffix,
            payload: vec!["example.com".to_string()],
            action: Action::Direct,
        },
        Rule {
            name: "second".to_string(),
            rule_type: RuleType::ProcessName,
            payload: vec!["tele".to_string()],
            action: Action::Proxy("B".to_string()),
        },
    ];
    let engine = RuleEngine::new(rules, Action::Reject).unwrap();
    assert_eq!(engine.match_rule(&meta_for(Some("telegram"))), &Action::Proxy("A".to_string()));
    assert_eq!(engine.match_rule(&meta_for(Some("telephone"))), &Action::Proxy("B".to_string()));
    assert_eq!(engine.match_rule(&meta_for(None)), &Action::Reject);
}

#[test]
fn engine_refuses_the_first_unsupported_rule() {
    let rules = vec![
        Rule {
            name: "first".to_string(),
            rule_type: RuleType::ProcessName,
            payload: vec!["gram".to_string()],
            action: Action::Proxy("A".to_string()),
        },
        Rule {
            name: "domains".to_string(),
            rule_type: RuleType::Domain,
            payload: vec!["tele".to_string()],
            action: Action::Reject,
        },
        Rule {
            name: "geo".to_string(),
            rule_type: RuleType::Geoip,
            payload: vec!["CN".to_string()],
            action: Action::Direct,
        },
    ];
    let err = RuleEngine::new(rules, Action::Reject).err().unwrap();
    assert_eq!(err, UnsupportedRule { name: "domains".to_string(), rule_type: RuleType::Domain });
    assert_eq!(err.message(), "不支持的规则条件：domains");
    assert!(RuleEngine::new(vec![], Action::Direct).is_ok());
}

#[test]
fn matchers_by_kind() {
    let suffix = DomainSuffixMatcher::new(vec!["example.com".to_string()]);
    assert!(!suffix.matches(&meta_for(Some("example.com"))));
    let process = ProcessNameMatcher::new(vec!["fire".to_string()]);
    assert!(process.matches(&meta_for(Some("firefox"))));
    assert!(!process.matches(&meta_for(Some("chrome"))));
    assert!(!process.matches(&meta_for(None)));
}

#[test]
fn default_config_and_state() {
    let config = NaryaConfig::default();
    assert_eq!(config.settings.mixed_port, 7890);
    assert!(config.settings.system_proxy);
    assert_eq!(config.settings.tun.stack, "gvisor");
    assert_eq!(config.settings.tun.device, "utun");
    assert!(config.settings.tun.auto_route);
    assert!(!config.settings.tun.enabled);
    let state = PersistentState::default();
    assert!(state.active_node.is_none());
    assert_eq!(hello_core(), "hello from core");
}

#[test]
fn node_details_keep_their_fields() {
    let details = NodeDetails {
        address: "test.example.com".to_string(),
        encryption: "none".to_string(),
        udp: true,
        tls: false,
        skip_cert_verify: false,
        transport: "tcp".to_string(),
        last_test: "Just now".to_string(),
        options: ProtocolOptions::default(),
    };
    assert_eq!(details.address, "test.example.com");
    assert_eq!(details.transport, "tcp");
}

fn proxy(name: &str, kind: &str, server: &str, port: u16) -> Proxy {
    Proxy { name: name.to_string(), proxy_type: kind.to_string(), server: server.to_string(), port }
}

#[test]
fn transform_plans_outbounds_and_rules() {
    let mut config = NaryaConfig::default();
    config.proxies.push(proxy("hk", "SS", "hk.example", 8388));
    config.proxies.push(proxy("jp", "trojan", "jp.example", 443));
    config.proxies.push(proxy("us", "Shadowsocks", "us.example", 443));
    config.groups.push(ProxyGroup { name: "Streaming".to_string(), group_type: GroupType::Select, proxies: vec![] });
    config.groups.push(ProxyGroup { name: "Auto".to_string(), group_type: GroupType::UrlTest, proxies: vec![] });
    config.rules.push(Rule {
        name: "ads".to_string(),
        rule_type: RuleType::DomainSuffix,
        payload: vec!["ads.example".to_string()],
        action: Action::Reject,
    });
    config.rules.push(Rule {
        name: "lan".to_string(),
        rule_type: RuleType::ProcessName,
        payload: vec!["x".to_string()],
        action: Action::Direct,
    });
    let out = Transformer::transform(&config, Some("jp")).unwrap();
    assert_eq!(out.log_level, "info");
    assert_eq!(out.inbounds.len(), 1);
    assert_eq!(out.inbounds[0].inbound_type, "mixed");
    assert_eq!(out.inbounds[0].listen, "127.0.0.1");
    assert_eq!(out.inbounds[0].listen_port, 7890);
    assert_eq!(out.outbounds.len(), 7);
    assert!(matches!(&out.outbounds[0], Outbound::Direct { tag } if tag == "direct"));
    assert!(matches!(&out.outbounds[1], Outbound::Shadowsocks { tag, server, server_port: 8388, method, password }
        if tag == "hk" && server == "hk.example" && method == "aes-128-gcm" && password == "password"));
    assert!(matches!(&out.outbounds[2], Outbound::Trojan { tag, server_port: 443, .. } if tag == "jp"));
    assert!(matches!(&out.outbounds[3], Outbound::Shadowsocks { tag, server_port: 443, .. } if tag == "us"));
    match &out.outbounds[4] {
        Outbound::Selector { tag, outbounds, default } => {
            assert_eq!(tag, "proxy");
            assert_eq!(outbounds, &vec!["hk".to_string(), "jp".to_string(), "us".to_string()]);
            assert_eq!(default, "jp");
        }
        other => panic!("unexpected outbound {other:?}"),
    }
    match &out.outbounds[5] {
        Outbound::Selector { tag, outbounds, default } => {
            assert_eq!(tag, "Streaming");
            assert_eq!(outbounds, &vec!["direct".to_string()]);
            assert_eq!(default, "direct");
        }
        other => panic!("unexpected outbound {other:?}"),
    }
    assert!(matches!(&out.outbounds[6], Outbound::Block { tag } if tag == "block"));
    let directs: Vec<_> = out.outbounds.iter().filter(|o| matches!(o, Outbound::Direct { .. })).collect();
    assert_eq!(directs.len(), 1);
    assert_eq!(out.rules.len(), 2);
    assert_eq!(out.rules[0].outbound, "block");
    assert!(matches!(&out.rules[0].condition, RouteMatch::DomainSuffix(v) if v == &vec!["ads.example".to_string()]));
    assert_eq!(out.rules[1].outbound, "direct");
    assert!(matches!(out.rules[1].condition, RouteMatch::Unconditional));
}

#[test]
fn transform_without_proxies_selects_direct() {
    let config = NaryaConfig::default();
    let out = Transformer::transform(&config, Some("missing")).unwrap();
    assert_eq!(out.outbounds.len(), 2);
    match &out.outbounds[1] {
        Outbound::Selector { tag, outbounds, default } => {
            assert_eq!(tag, "proxy");
            assert_eq!(outbounds, &vec!["direct".to_string()]);
            assert_eq!(default, "direct");
        }
        other => panic!("unexpected outbound {other:?}"),
    }
}

#[test]
fn transform_falls_back_to_first_proxy_for_unknown_node() {
    let mut config = NaryaConfig::default();
    config.proxies.push(proxy("a", "ss", "a.example", 1));
    config.proxies.push(proxy("b", "ss", "b.example", 2));
    let out = Transformer::transform(&config, Some("zzz")).unwrap();
    assert!(matches!(&out.outbounds[3], Outbound::Selector { default, .. } if default == "a"));
    let out = Transformer::transform(&config, None).unwrap();
    assert!(matches!(&out.outbounds[3], Outbound::Selector { default, .. } if default == "a"));
}

#[test]
fn transform_refuses_an_unsupported_protocol() {
    let mut config = NaryaConfig::default();
    config.proxies.push(proxy("hk", "ss", "hk.example", 8388));
    config.proxies.push(proxy("us", "vmess", "us.example", 443));
    config.proxies.push(proxy("de", "vless", "de.example", 443));
    let err = Transformer::transform(&config, Some("us")).err().unwrap();
    assert_eq!(err, UnsupportedProtocol { proxy: "us".to_string(), protocol: "vmess".to_string() });
    assert_eq!(err.message(), "unsupported proxy protocol vmess for us");
}

#[test]
fn plain_links_are_parsed_into_proxies_and_a_group() {
    let content = "ss://YWVzOnB3@hk.example.com:8388#%E9%A6%99%E6%B8%AF\n\n  trojan://pw@jp.example.com:443  \nhttp://ignored\nvmess://abc";
    let config = SubscriptionParser::parse_plain_links(content);
    assert_eq!(config.proxies.len(), 3);
    assert_eq!(config.proxies[0].name, "香港");
    assert_eq!(config.proxies[0].proxy_type, "ss");
    assert_eq!(config.proxies[0].server, "hk.example.com");
    assert_eq!(config.proxies[0].port, 8388);
    assert_eq!(config.proxies[1].name, "trojan-node");
    assert_eq!(config.proxies[1].server, "jp.example.com");
    assert_eq!(config.proxies[1].port, 443);
    assert_eq!(config.proxies[2].name, "vmess-node");
    assert_eq!(config.proxies[2].server, "unknown");
    assert_eq!(config.proxies[2].port, 443);
    assert_eq!(config.groups.len(), 1);
    assert_eq!(config.groups[0].name, "Auto-Parsed");
    assert_eq!(config.groups[0].group_type, GroupType::Select);
    assert_eq!(
        config.groups[0].proxies,
        vec!["香港".to_string(), "trojan-node".to_string(), "vmess-node".to_string()]
    );
}

#[test]
fn a_bad_port_falls_back_to_443() {
    let config = SubscriptionParser::parse_plain_links("vless://id@host.example:99999");
    assert_eq!(config.proxies.len(), 1);
    assert_eq!(config.proxies[0].server, "host.example");
    assert_eq!(config.proxies[0].port, 443);
}

#[test]
fn no_links_means_no_group() {
    let config = SubscriptionParser::parse_plain_links("hello\nworld");
    assert!(config.proxies.is_empty());
    assert!(config.groups.is_empty());
}

#[test]
fn classify_tells_clash_from_links() {
    match SubscriptionParser::classify("  proxies:\n  - name: a\n") {
        Ok(SubscriptionPayload::Clash(s)) => assert_eq!(s, "proxies:\n  - name: a"),
        _ => panic!("expected a Clash document"),
    }
    match SubscriptionParser::classify("mixed\nproxy-groups: []") {
        Ok(SubscriptionPayload::Clash(_)) => {}
        _ => panic!("expected a Clash document"),
    }
    // "c3M6Ly9hQGI6MQ==" is base64 for "ss://a@b:1".
    match SubscriptionParser::classify("c3M6Ly9h\nQGI6MQ==\n") {
        Ok(SubscriptionPayload::Links(s)) => assert_eq!(s, "ss://a@b:1"),
        _ => panic!("expected decoded links"),
    }
    match SubscriptionParser::classify("ss://not base64") {
        Ok(SubscriptionPayload::Links(s)) => assert_eq!(s, "ss://not base64"),
        _ => panic!("expected raw links"),
    }
    // "/w==" decodes to the single byte 0xff, which is not UTF-8.
    assert!(matches!(SubscriptionParser::classify("/w=="), Err(ParseError::InvalidUtf8)));
}

fn ys(s: &str) -> YamlValue {
    YamlValue::String(s.to_string())
}

fn map(entries: Vec<(&str, YamlValue)>) -> YamlValue {
    YamlValue::Mapping(entries.into_iter().map(|(k, v)| (ys(k), v)).collect())
}

#[test]
fn clash_documents_give_proxies_and_groups() {
    let doc = map(vec![
        (
            "proxies",
            YamlValue::Sequence(vec![
                map(vec![
                    ("name", ys("hk")),
                    ("type", ys("ss")),
                    ("server", ys("hk.example")),
                    ("port", YamlValue::Number(YamlNumber::PosInt(8388))),
                ]),
                map(vec![("name", ys("incomplete")), ("type", ys("ss"))]),
                map(vec![
                    ("name", ys("tagged")),
                    ("type", ys("trojan")),
                    ("server", ys("t.example")),
                    (
                        "port",
                        YamlValue::Tagged("!int".to_string(), Box::new(YamlValue::Number(YamlNumber::PosInt(443)))),
                    ),
                ]),
            ]),
        ),
        (
            "proxy-groups",
            YamlValue::Sequence(vec![
                map(vec![
                    ("name", ys("Auto")),
                    ("type", ys("URL-Test")),
                    ("proxies", YamlValue::Sequence(vec![ys("hk"), YamlValue::Bool(true), ys("tagged")])),
                ]),
                map(vec![("name", ys("Odd")), ("type", ys("mystery"))]),
            ]),
        ),
    ]);
    let config = SubscriptionParser::parse_clash(&doc);
    assert_eq!(config.proxies.len(), 2);
    assert_eq!(config.proxies[0].name, "hk");
    assert_eq!(config.proxies[0].port, 8388);
    assert_eq!(config.proxies[1].name, "tagged");
    assert_eq!(config.proxies[1].port, 443);
    assert_eq!(config.groups.len(), 2);
    assert_eq!(config.groups[0].group_type, GroupType::UrlTest);
    assert_eq!(config.groups[0].proxies, vec!["hk".to_string(), "tagged".to_string()]);
    assert_eq!(config.groups[1].group_type, GroupType::Select);
    assert!(config.groups[1].proxies.is_empty());
}

#[test]
fn clash_port_is_truncated_to_16_bits() {
    let doc = map(vec![(
        "proxies",
        YamlValue::Sequence(vec![map(vec![
            ("name", ys("big")),
            ("type", ys("ss")),
            ("server", ys("s")),
            ("port", YamlValue::Number(YamlNumber::PosInt(65536 + 80))),
        ])]),
    )]);
    let config = SubscriptionParser::parse_clash(&doc);
    assert_eq!(config.proxies[0].port, 80);
}

#[test]
fn reordering_groups_is_no_change() {
    let mut old = NaryaConfig::default();
    for name in ["A", "B", "C"] {
        old.groups.push(ProxyGroup { name: name.to_string(), group_type: GroupType::Select, proxies: vec![] });
    }
    let mut new = old.clone();
    new.groups.reverse();
    let diff = ConfigDiff::calculate(&old, &new);
    assert!(diff.groups_changed.is_empty());
    assert!(!diff.has_changes());
    new.groups.pop();
    let diff = ConfigDiff::calculate(&old, &new);
    assert_eq!(diff.groups_changed, vec!["A".to_string()]);
    assert!(diff.has_changes());
}

#[test]
fn parse_reads_a_clash_document_through_the_yaml_library() {
    let body = "proxies:\n  - name: hk\n    type: ss\n    server: hk.example\n    port: 8388\n  - name: neg\n    type: ss\n    server: n.example\n    port: -1\nproxy-groups:\n  - name: Auto\n    type: url-test\n    proxies: [hk]\n";
    let config = SubscriptionParser::parse(body).unwrap();
    assert_eq!(config.proxies.len(), 1);
    assert_eq!(config.proxies[0].name, "hk");
    assert_eq!(config.proxies[0].server, "hk.example");
    assert_eq!(config.proxies[0].port, 8388);
    assert_eq!(config.groups.len(), 1);
    assert_eq!(config.groups[0].name, "Auto");
    assert_eq!(config.groups[0].group_type, GroupType::UrlTest);
    assert_eq!(config.groups[0].proxies, vec!["hk".to_string()]);
}

#[test]
fn parse_refuses_a_clash_body_that_is_not_yaml() {
    assert!(matches!(SubscriptionParser::parse("proxies: [unclosed"), Err(ParseError::InvalidYaml)));
    assert!(matches!(SubscriptionParser::parse("/w=="), Err(ParseError::InvalidUtf8)));
}

#[test]
fn parse_reads_base64_links_like_plain_ones() {
    // "c3M6Ly9hQGI6MQ==" is base64 for "ss://a@b:1".
    let encoded = SubscriptionParser::parse("c3M6Ly9h\nQGI6MQ==\n").unwrap();
    let plain = SubscriptionParser::parse("ss://a@b:1").unwrap();
    assert_eq!(format!("{:?}", encoded.proxies), format!("{:?}", plain.proxies));
    assert_eq!(format!("{:?}", encoded.groups), format!("{:?}", plain.groups));
    assert_eq!(plain.proxies.len(), 1);
    assert_eq!(plain.proxies[0].server, "b");
    assert_eq!(plain.proxies[0].port, 1);
    assert_eq!(plain.groups[0].name, "Auto-Parsed");
}
