//! Routing rules, routing groups and rule sets as the desktop client edits
//! them, with the rules for editing them.

use vstd::prelude::*;
use crate::tracker::IpAddress;
use crate::model::strings_view;

verus! {

/// What a routing rule matches on.
#[derive(Debug, Clone)]
pub enum Condition {
    Domain(String),
    DomainSuffix(String),
    IpCidr { network: IpAddress, prefix: u8 },
    Port(u16),
    Process(String),
    RuleSet(String),
    Any,
}

pub enum ConditionModel {
    Domain(Seq<char>),
    DomainSuffix(Seq<char>),
    IpCidr { network: IpAddress, prefix: u8 },
    Port(u16),
    Process(Seq<char>),
    RuleSet(Seq<char>),
    Any,
}

impl View for Condition {
    type V = ConditionModel;

    open spec fn view(&self) -> ConditionModel {
        match self {
            Condition::Domain(s) => ConditionModel::Domain(s@),
            Condition::DomainSuffix(s) => ConditionModel::DomainSuffix(s@),
            Condition::IpCidr { network, prefix } => ConditionModel::IpCidr { network: *network, prefix: *prefix },
            Condition::Port(p) => ConditionModel::Port(*p),
            Condition::Process(s) => ConditionModel::Process(s@),
            Condition::RuleSet(s) => ConditionModel::RuleSet(s@),
            Condition::Any => ConditionModel::Any,
        }
    }
}

/// Where traffic matching a routing rule goes.
#[derive(Debug, Clone)]
pub enum Action {
    /// A routing group, by id.
    Proxy(String),
    Direct,
    Block,
    /// A DNS server.
    Dns(String),
}

pub enum ActionModel {
    Proxy(Seq<char>),
    Direct,
    Block,
    Dns(Seq<char>),
}

impl View for Action {
    type V = ActionModel;

    open spec fn view(&self) -> ActionModel {
        match self {
            Action::Proxy(s) => ActionModel::Proxy(s@),
            Action::Direct => ActionModel::Direct,
            Action::Block => ActionModel::Block,
            Action::Dns(s) => ActionModel::Dns(s@),
        }
    }
}

/// A routing rule: all its conditions must match; lower priorities win.
#[derive(Debug, Clone)]
pub struct Rule {
    pub id: String,
    pub priority: i32,
    pub conditions: Vec<Condition>,
    pub action: Action,
}

pub struct RuleModel {
    pub id: Seq<char>,
    pub priority: i32,
    pub conditions: Seq<ConditionModel>,
    pub action: ActionModel,
}

impl View for Rule {
    type V = RuleModel;

    open spec fn view(&self) -> RuleModel {
        RuleModel {
            id: self.id@,
            priority: self.priority,
            conditions: self.conditions@.map_values(|c: Condition| c@),
            action: self.action@,
        }
    }
}

/// How a routing group picks among its members.
#[derive(Debug, Clone, Copy, PartialEq, Eq, Structural)]
pub enum GroupStrategy {
    Select,
    UrlTest,
    Fallback,
    LoadBalance,
}

/// A routing group that rules send traffic to.
#[derive(Debug, Clone)]
pub struct RoutingGroup {
    pub id: String,
    pub strategy: GroupStrategy,
    pub members: Vec<String>,
    pub url: Option<String>,
    pub interval_secs: Option<u64>,
}

pub struct RoutingGroupModel {
    pub id: Seq<char>,
    pub strategy: GroupStrategy,
    pub members: Seq<Seq<char>>,
    pub url: Option<Seq<char>>,
    pub interval_secs: Option<u64>,
}

pub open spec fn opt_view(o: Option<String>) -> Option<Seq<char>> {
    match o {
        Some(s) => Some(s@),
        None => None,
    }
}

impl View for RoutingGroup {
    type V = RoutingGroupModel;

    open spec fn view(&self) -> RoutingGroupModel {
        RoutingGroupModel {
            id: self.id@,
            strategy: self.strategy,
            members: strings_view(self.members@),
            url: opt_view(self.url),
            interval_secs: self.interval_secs,
        }
    }
}

/// The format of an external rule set.
#[derive(Debug, Clone, Copy, PartialEq, Eq, Structural)]
pub enum RuleSetFormat {
    Domain,
    IpCidr,
    Classical,
    SingBoxBinary,
}

/// An external rule set and how to verify it.
#[derive(Debug, Clone)]
pub struct RuleSetSource {
    pub id: String,
    pub source: String,
    pub version: String,
    pub sha256: String,
    pub format: RuleSetFormat,
    pub enabled: bool,
    pub signature: String,
    pub public_key: String,
}

pub struct RuleSetSourceModel {
    pub id: Seq<char>,
    pub source: Seq<char>,
    pub version: Seq<char>,
    pub sha256: Seq<char>,
    pub format: RuleSetFormat,
    pub enabled: bool,
    pub signature: Seq<char>,
    pub public_key: Seq<char>,
}

impl View for RuleSetSource {
    type V = RuleSetSourceModel;

    open spec fn view(&self) -> RuleSetSourceModel {
        RuleSetSourceModel {
            id: self.id@,
            source: self.source@,
            version: self.version@,
            sha256: self.sha256@,
            format: self.format,
            enabled: self.enabled,
            signature: self.signature@,
            public_key: self.public_key@,
        }
    }
}

/// The rule-set format a form value names; anything unknown is the sing-box
/// binary format.
pub open spec fn rule_set_format_named(value: Seq<char>) -> RuleSetFormat {
    if value == "domain"@ {
        RuleSetFormat::Domain
    } else if value == "ip_cidr"@ {
        RuleSetFormat::IpCidr
    } else if value == "classical"@ {
        RuleSetFormat::Classical
    } else {
        RuleSetFormat::SingBoxBinary
    }
}

/// The rule-set format a form value names.
pub fn parse_rule_set_format(value: &str) -> (f: RuleSetFormat)
    ensures
        f == rule_set_format_named(value@),
{
    let v = String::from_str(value);
    if v == String::from_str("domain") {
        RuleSetFormat::Domain
    } else if v == String::from_str("ip_cidr") {
        RuleSetFormat::IpCidr
    } else if v == String::from_str("classical") {
        RuleSetFormat::Classical
    } else {
        RuleSetFormat::SingBoxBinary
    }
}

/// The label shown for a group strategy.
pub fn group_strategy_label(strategy: GroupStrategy) -> (s: &'static str)
    ensures
        s@ == match strategy {
            GroupStrategy::Select => "手动选择"@,
            GroupStrategy::UrlTest => "URL 测试"@,
            GroupStrategy::Fallback => "故障转移"@,
            GroupStrategy::LoadBalance => "负载均衡"@,
        },
{
    match strategy {
        GroupStrategy::Select => "手动选择",
        GroupStrategy::UrlTest => "URL 测试",
        GroupStrategy::Fallback => "故障转移",
        GroupStrategy::LoadBalance => "负载均衡",
    }
}

/// The strategy picked by its index in the strategy selector; unknown
/// indices select manually.
pub open spec fn strategy_at(index: usize) -> GroupStrategy {
    if index == 1 {
        GroupStrategy::UrlTest
    } else if index == 2 {
        GroupStrategy::Fallback
    } else if index == 3 {
        GroupStrategy::LoadBalance
    } else {
        GroupStrategy::Select
    }
}

/// The key of an action's variant.
pub fn rule_action_key(action: &Action) -> (s: &'static str)
    ensures
        s@ == match action@ {
            ActionModel::Proxy(_) => "proxy"@,
            ActionModel::Direct => "direct"@,
            ActionModel::Block => "block"@,
            ActionModel::Dns(_) => "dns"@,
        },
{
    match action {
        Action::Proxy(_) => "proxy",
        Action::Direct => "direct",
        Action::Block => "block",
        Action::Dns(_) => "dns",
    }
}

/// The action selector's value for an action: the group id, `direct`,
/// `block` or `dns:<server>`.
pub open spec fn action_value(a: ActionModel) -> Seq<char> {
    match a {
        ActionModel::Proxy(g) => g,
        ActionModel::Direct => "direct"@,
        ActionModel::Block => "block"@,
        ActionModel::Dns(server) => "dns:"@ + server,
    }
}

/// The action selector's value for an action.
pub fn rule_action_value(action: &Action) -> (s: String)
    ensures
        s@ == action_value(action@),
{
    match action {
        Action::Proxy(g) => g.clone(),
        Action::Direct => String::from_str("direct"),
        Action::Block => String::from_str("block"),
        Action::Dns(server) => String::from_str("dns:").concat(server.as_str()),
    }
}

/// The summary shown for an action.
pub fn rule_action_summary(action: &Action) -> (s: String)
    ensures
        s@ == match action@ {
            ActionModel::Proxy(g) => "代理 · "@ + g,
            ActionModel::Direct => "直连"@,
            ActionModel::Block => "阻断"@,
            ActionModel::Dns(server) => "DNS · "@ + server,
        },
{
    match action {
        Action::Proxy(g) => String::from_str("代理 · ").concat(g.as_str()),
        Action::Direct => String::from_str("直连"),
        Action::Block => String::from_str("阻断"),
        Action::Dns(server) => String::from_str("DNS · ").concat(server.as_str()),
    }
}

/// The label shown for a condition kind.
pub fn condition_kind_label(kind: &str) -> (s: &'static str)
    ensures
        s@ == if kind@ == "domain"@ {
            "域名"@
        } else if kind@ == "domain_suffix"@ {
            "域名后缀"@
        } else if kind@ == "ip_cidr"@ {
            "IP/CIDR"@
        } else if kind@ == "port"@ {
            "端口"@
        } else if kind@ == "process"@ {
            "进程"@
        } else if kind@ == "rule_set"@ {
            "规则集"@
        } else if kind@ == "any"@ {
            "所有请求"@
        } else {
            "条件"@
        },
{
    let k = String::from_str(kind);
    if k == String::from_str("domain") {
        "域名"
    } else if k == String::from_str("domain_suffix") {
        "域名后缀"
    } else if k == String::from_str("ip_cidr") {
        "IP/CIDR"
    } else if k == String::from_str("port") {
        "端口"
    } else if k == String::from_str("process") {
        "进程"
    } else if k == String::from_str("rule_set") {
        "规则集"
    } else if k == String::from_str("any") {
        "所有请求"
    } else {
        "条件"
    }
}

/// The value a condition editor starts from for a kind.
pub fn condition_default_value(kind: &str) -> (s: String)
    ensures
        s@ == if kind@ == "domain"@ || kind@ == "domain_suffix"@ || kind@ == "process"@ || kind@ == "rule_set"@ {
            "example.com"@
        } else if kind@ == "ip_cidr"@ {
            "10.0.0.0/8"@
        } else if kind@ == "port"@ {
            "443"@
        } else {
            Seq::<char>::empty()
        },
{
    let k = String::from_str(kind);
    if k == String::from_str("domain") || k == String::from_str("domain_suffix") || k == String::from_str("process")
        || k == String::from_str("rule_set") {
        String::from_str("example.com")
    } else if k == String::from_str("ip_cidr") {
        String::from_str("10.0.0.0/8")
    } else if k == String::from_str("port") {
        String::from_str("443")
    } else {
        String::new()
    }
}

/// The form value the rule-set format selector writes for each format.
pub open spec fn format_option_value(f: RuleSetFormat) -> Seq<char> {
    match f {
        RuleSetFormat::SingBoxBinary => "sing_box_binary"@,
        RuleSetFormat::Domain => "domain"@,
        RuleSetFormat::IpCidr => "ip_cidr"@,
        RuleSetFormat::Classical => "classical"@,
    }
}

/// Every format the selector offers is read back from its form value as
/// that same format, and a value the selector never writes is the sing-box
/// binary format.
pub proof fn law_format_option_reads_back(f: RuleSetFormat, other: Seq<char>)
    requires
        other != "sing_box_binary"@,
        other != "domain"@,
        other != "ip_cidr"@,
        other != "classical"@,
    ensures
        rule_set_format_named(format_option_value(f)) == f,
        rule_set_format_named(other) == RuleSetFormat::SingBoxBinary,
{
    reveal_strlit("sing_box_binary");
    reveal_strlit("domain");
    reveal_strlit("ip_cidr");
    reveal_strlit("classical");
    assert("sing_box_binary"@.len() == 15 && "domain"@.len() == 6);
    assert("ip_cidr"@.len() == 7 && "classical"@.len() == 9);
}

/// The position the strategy selector shows each strategy at.
pub open spec fn strategy_position(s: GroupStrategy) -> usize {
    match s {
        GroupStrategy::Select => 0,
        GroupStrategy::UrlTest => 1,
        GroupStrategy::Fallback => 2,
        GroupStrategy::LoadBalance => 3,
    }
}

/// Picking the selector entry a strategy is shown at gives that strategy
/// back, and each of the four entries is the strategy shown there; any
/// other index picks manual selection.
pub proof fn law_strategy_selector_round_trip(s: GroupStrategy, index: usize)
    ensures
        strategy_at(strategy_position(s)) == s,
        index < 4 ==> strategy_position(strategy_at(index)) == index,
        index >= 4 ==> strategy_at(index) == GroupStrategy::Select,
{
}

} // verus!
