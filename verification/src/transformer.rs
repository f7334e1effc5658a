//! Plans the sing-box configuration that runs a Narya configuration.

use vstd::prelude::*;
use crate::model::{
    Action, ActionModel, GroupType, NaryaConfig, NaryaConfigModel, Proxy, ProxyGroup, ProxyGroupModel, ProxyModel,
    Rule, RuleModel, RuleType, clone_strings, strings_view,
};
use crate::text::{lemma_map_push, lemma_map_take_push, lowercase, str_eq, to_lowercase};

verus! {

/// The local listener.
#[derive(Debug, Clone)]
pub struct Inbound {
    pub inbound_type: String,
    pub listen: String,
    pub listen_port: u16,
}

/// An outbound of the generated configuration.
#[derive(Debug, Clone)]
pub enum Outbound {
    Direct { tag: String },
    Shadowsocks { tag: String, server: String, server_port: u16, method: String, password: String },
    Trojan { tag: String, server: String, server_port: u16, password: String },
    Selector { tag: String, outbounds: Vec<String>, default: String },
    Block { tag: String },
}

/// What a route rule matches on.
#[derive(Debug, Clone)]
pub enum RouteMatch {
    Domain(Vec<String>),
    DomainSuffix(Vec<String>),
    IpCidr(Vec<String>),
    /// The rule's type has no sing-box field; it carries only its outbound.
    Unconditional,
}

/// A route rule: traffic matching `condition` leaves through `outbound`.
#[derive(Debug, Clone)]
pub struct RouteRule {
    pub outbound: String,
    pub condition: RouteMatch,
}

/// A sing-box configuration.
#[derive(Debug, Clone)]
pub struct SingBoxConfig {
    pub log_level: String,
    pub inbounds: Vec<Inbound>,
    pub outbounds: Vec<Outbound>,
    pub rules: Vec<RouteRule>,
}

pub struct InboundModel {
    pub inbound_type: Seq<char>,
    pub listen: Seq<char>,
    pub listen_port: u16,
}

pub enum OutboundModel {
    Direct { tag: Seq<char> },
    Shadowsocks { tag: Seq<char>, server: Seq<char>, server_port: u16, method: Seq<char>, password: Seq<char> },
    Trojan { tag: Seq<char>, server: Seq<char>, server_port: u16, password: Seq<char> },
    Selector { tag: Seq<char>, outbounds: Seq<Seq<char>>, default: Seq<char> },
    Block { tag: Seq<char> },
}

pub enum RouteMatchModel {
    Domain(Seq<Seq<char>>),
    DomainSuffix(Seq<Seq<char>>),
    IpCidr(Seq<Seq<char>>),
    Unconditional,
}

pub struct RouteRuleModel {
    pub outbound: Seq<char>,
    pub condition: RouteMatchModel,
}

pub struct SingBoxConfigModel {
    pub log_level: Seq<char>,
    pub inbounds: Seq<InboundModel>,
    pub outbounds: Seq<OutboundModel>,
    pub rules: Seq<RouteRuleModel>,
}

impl View for Inbound {
    type V = InboundModel;

    open spec fn view(&self) -> InboundModel {
        InboundModel { inbound_type: self.inbound_type@, listen: self.listen@, listen_port: self.listen_port }
    }
}

impl View for Outbound {
    type V = OutboundModel;

    open spec fn view(&self) -> OutboundModel {
        match self {
            Outbound::Direct { tag } => OutboundModel::Direct { tag: tag@ },
            Outbound::Shadowsocks { tag, server, server_port, method, password } => OutboundModel::Shadowsocks {
                tag: tag@,
                server: server@,
                server_port: *server_port,
                method: method@,
                password: password@,
            },
            Outbound::Trojan { tag, server, server_port, password } => OutboundModel::Trojan {
                tag: tag@,
                server: server@,
                server_port: *server_port,
                password: password@,
            },
            Outbound::Selector { tag, outbounds, default } => OutboundModel::Selector {
                tag: tag@,
                outbounds: strings_view(outbounds@),
                default: default@,
            },
            Outbound::Block { tag } => OutboundModel::Block { tag: tag@ },
        }
    }
}

impl View for RouteMatch {
    type V = RouteMatchModel;

    open spec fn view(&self) -> RouteMatchModel {
        match self {
            RouteMatch::Domain(v) => RouteMatchModel::Domain(strings_view(v@)),
            RouteMatch::DomainSuffix(v) => RouteMatchModel::DomainSuffix(strings_view(v@)),
            RouteMatch::IpCidr(v) => RouteMatchModel::IpCidr(strings_view(v@)),
            RouteMatch::Unconditional => RouteMatchModel::Unconditional,
        }
    }
}

impl View for RouteRule {
    type V = RouteRuleModel;

    open spec fn view(&self) -> RouteRuleModel {
        RouteRuleModel { outbound: self.outbound@, condition: self.condition@ }
    }
}

impl View for SingBoxConfig {
    type V = SingBoxConfigModel;

    open spec fn view(&self) -> SingBoxConfigModel {
        SingBoxConfigModel {
            log_level: self.log_level@,
            inbounds: self.inbounds@.map_values(|i: Inbound| i@),
            outbounds: self.outbounds@.map_values(|o: Outbound| o@),
            rules: self.rules@.map_values(|r: RouteRule| r@),
        }
    }
}

/// The tag an outbound is known by.
pub open spec fn outbound_tag(o: OutboundModel) -> Seq<char> {
    match o {
        OutboundModel::Direct { tag } => tag,
        OutboundModel::Shadowsocks { tag, .. } => tag,
        OutboundModel::Trojan { tag, .. } => tag,
        OutboundModel::Selector { tag, .. } => tag,
        OutboundModel::Block { tag } => tag,
    }
}

/// The proxy's protocol is one the planner can write an outbound for:
/// Shadowsocks (`ss` or `shadowsocks`) or Trojan, by its lowercased type.
pub open spec fn supported_protocol(p: ProxyModel) -> bool {
    let t = lowercase(p.proxy_type);
    t == "ss"@ || t == "shadowsocks"@ || t == "trojan"@
}

/// Every proxy has a supported protocol.
pub open spec fn all_protocols_supported(proxies: Seq<ProxyModel>) -> bool {
    forall|i: int| 0 <= i < proxies.len() ==> supported_protocol(#[trigger] proxies[i])
}

/// Proxy `i` is the first whose protocol is not supported.
pub open spec fn first_unsupported_proxy(proxies: Seq<ProxyModel>, i: int) -> bool {
    &&& 0 <= i < proxies.len()
    &&& !supported_protocol(proxies[i])
    &&& forall|j: int| 0 <= j < i ==> supported_protocol(#[trigger] proxies[j])
}

/// The outbound of a proxy of a supported protocol: Shadowsocks for `ss`
/// and `shadowsocks`, Trojan otherwise.
pub open spec fn proxy_outbound(p: ProxyModel) -> OutboundModel {
    let t = lowercase(p.proxy_type);
    if t == "ss"@ || t == "shadowsocks"@ {
        OutboundModel::Shadowsocks {
            tag: p.name,
            server: p.server,
            server_port: p.port,
            method: "aes-128-gcm"@,
            password: "password"@,
        }
    } else {
        OutboundModel::Trojan { tag: p.name, server: p.server, server_port: p.port, password: "password"@ }
    }
}

/// The members of the default `proxy` selector: every proxy, or `direct`
/// when there is none.
pub open spec fn selector_members(proxies: Seq<ProxyModel>) -> Seq<Seq<char>> {
    if proxies.len() == 0 {
        seq!["direct"@]
    } else {
        proxies.map_values(|p: ProxyModel| p.name)
    }
}

/// The selector's default: the active node when it is a member, else the
/// first member.
pub open spec fn selector_default(members: Seq<Seq<char>>, active: Option<Seq<char>>) -> Seq<char> {
    match active {
        Some(a) => if members.contains(a) { a } else { members[0] },
        None => members[0],
    }
}

/// Selectors for the user's `Select` groups, in order; a group without
/// members gets `direct`.
pub open spec fn group_selectors(groups: Seq<ProxyGroupModel>) -> Seq<OutboundModel>
    decreases groups.len(),
{
    if groups.len() == 0 {
        Seq::empty()
    } else {
        let prev = group_selectors(groups.drop_last());
        let g = groups.last();
        if g.group_type == GroupType::Select {
            let members = if g.proxies.len() == 0 { seq!["direct"@] } else { g.proxies };
            prev.push(OutboundModel::Selector { tag: g.name, outbounds: members, default: members[0] })
        } else {
            prev
        }
    }
}

/// The outbound tag a rule's action points to.
pub open spec fn action_tag(a: ActionModel) -> Seq<char> {
    match a {
        ActionModel::Direct => "direct"@,
        ActionModel::Proxy(t) => t,
        ActionModel::Reject => "block"@,
    }
}

/// The route rule for a Narya rule.
pub open spec fn route_rule(r: RuleModel) -> RouteRuleModel {
    RouteRuleModel {
        outbound: action_tag(r.action),
        condition: match r.rule_type {
            RuleType::Domain => RouteMatchModel::Domain(r.payload),
            RuleType::DomainSuffix => RouteMatchModel::DomainSuffix(r.payload),
            RuleType::IpCidr => RouteMatchModel::IpCidr(r.payload),
            _ => RouteMatchModel::Unconditional,
        },
    }
}

/// The outbounds before rules are looked at: `direct`, one per proxy, the
/// `proxy` selector, then the group selectors.
pub open spec fn base_outbounds(c: NaryaConfigModel, active: Option<Seq<char>>) -> Seq<OutboundModel> {
    let members = selector_members(c.proxies);
    seq![OutboundModel::Direct { tag: "direct"@ }] + c.proxies.map_values(|p: ProxyModel| proxy_outbound(p)) + seq![
        OutboundModel::Selector { tag: "proxy"@, outbounds: members, default: selector_default(members, active) },
    ] + group_selectors(c.groups)
}

/// Some rule sends traffic to the `block` tag.
pub open spec fn some_rule_blocks(rules: Seq<RuleModel>) -> bool {
    exists|i: int| 0 <= i < rules.len() && action_tag((#[trigger] rules[i]).action) == "block"@
}

/// Some outbound carries the tag `t`.
pub open spec fn some_tagged(os: Seq<OutboundModel>, t: Seq<char>) -> bool {
    exists|i: int| 0 <= i < os.len() && outbound_tag(#[trigger] os[i]) == t
}

/// All outbounds: the base ones, plus a `block` outbound when a rule needs
/// one and none is tagged so yet.
pub open spec fn planned_outbounds(c: NaryaConfigModel, active: Option<Seq<char>>) -> Seq<OutboundModel> {
    let base = base_outbounds(c, active);
    if some_rule_blocks(c.rules) && !some_tagged(base, "block"@) {
        base.push(OutboundModel::Block { tag: "block"@ })
    } else {
        base
    }
}

/// The whole plan for a configuration and an optional active node.
pub open spec fn planned_config(c: NaryaConfigModel, active: Option<Seq<char>>) -> SingBoxConfigModel {
    SingBoxConfigModel {
        log_level: "info"@,
        inbounds: seq![InboundModel { inbound_type: "mixed"@, listen: "127.0.0.1"@, listen_port: c.settings.mixed_port }],
        outbounds: planned_outbounds(c, active),
        rules: c.rules.map_values(|r: RuleModel| route_rule(r)),
    }
}

/// Every rule's outbound that is `block` has an outbound of that tag.
pub proof fn law_block_rules_have_block_outbound(c: NaryaConfigModel, active: Option<Seq<char>>)
    ensures
        some_rule_blocks(c.rules) ==> some_tagged(planned_outbounds(c, active), "block"@),
{
    let base = base_outbounds(c, active);
    if some_rule_blocks(c.rules) && !some_tagged(base, "block"@) {
        let out = base.push(OutboundModel::Block { tag: "block"@ });
        assert(outbound_tag(out[base.len() as int]) == "block"@);
    }
}

/// A selector whose default is one of its members; other outbounds
/// trivially qualify.
pub open spec fn selector_well_formed(o: OutboundModel) -> bool {
    match o {
        OutboundModel::Selector { outbounds, default, .. } => outbounds.len() > 0 && outbounds.contains(default),
        _ => true,
    }
}

proof fn lemma_group_selectors_well_formed(groups: Seq<ProxyGroupModel>)
    ensures
        forall|i: int| 0 <= i < group_selectors(groups).len() ==> selector_well_formed(#[trigger] group_selectors(groups)[i]),
    decreases groups.len(),
{
    if groups.len() > 0 {
        lemma_group_selectors_well_formed(groups.drop_last());
        let prev = group_selectors(groups.drop_last());
        let g = groups.last();
        if g.group_type == GroupType::Select {
            let members = if g.proxies.len() == 0 { seq!["direct"@] } else { g.proxies };
            let o = OutboundModel::Selector { tag: g.name, outbounds: members, default: members[0] };
            assert(members.contains(members[0]));
            assert forall|i: int| 0 <= i < prev.push(o).len() implies selector_well_formed(#[trigger] prev.push(o)[i]) by {
                if i < prev.len() {
                    assert(prev.push(o)[i] == prev[i]);
                }
            }
        }
    }
}

/// Every selector of the plan defaults to one of its members; in
/// particular the `proxy` selector defaults to the active node when that is
/// a proxy.
pub proof fn law_selectors_default_to_a_member(c: NaryaConfigModel, active: Option<Seq<char>>)
    ensures
        forall|i: int| 0 <= i < planned_outbounds(c, active).len() ==> selector_well_formed(
            #[trigger] planned_outbounds(c, active)[i],
        ),
{
    let members = selector_members(c.proxies);
    let head = seq![OutboundModel::Direct { tag: "direct"@ }] + c.proxies.map_values(|p: ProxyModel| proxy_outbound(p));
    let sel = OutboundModel::Selector { tag: "proxy"@, outbounds: members, default: selector_default(members, active) };
    let gsel = group_selectors(c.groups);
    lemma_group_selectors_well_formed(c.groups);
    assert(members.len() > 0);
    assert(members.contains(members[0]));
    assert(selector_well_formed(sel));
    let base = base_outbounds(c, active);
    assert(base == head + seq![sel] + gsel);
    assert forall|i: int| 0 <= i < base.len() implies selector_well_formed(#[trigger] base[i]) by {
        if i < head.len() {
            assert(base[i] == head[i]);
            if i > 0 {
                assert(head[i] == proxy_outbound(c.proxies[i - 1]));
            }
        } else if i == head.len() {
            assert(base[i] == sel);
        } else {
            assert(base[i] == gsel[i - head.len() - 1]);
        }
    }
    let out = planned_outbounds(c, active);
    assert forall|i: int| 0 <= i < out.len() implies selector_well_formed(#[trigger] out[i]) by {
        if i < base.len() {
            assert(out[i] == base[i]);
        }
    }
}

/// An outbound that is not a direct route, or the one tagged `direct`.
pub open spec fn not_a_stray_direct(o: OutboundModel) -> bool {
    o is Direct ==> outbound_tag(o) == "direct"@
}

proof fn lemma_group_selectors_are_selectors(groups: Seq<ProxyGroupModel>)
    ensures
        forall|i: int| 0 <= i < group_selectors(groups).len() ==> (#[trigger] group_selectors(groups)[i]) is Selector,
    decreases groups.len(),
{
    if groups.len() > 0 {
        lemma_group_selectors_are_selectors(groups.drop_last());
        let prev = group_selectors(groups.drop_last());
        let g = groups.last();
        if g.group_type == GroupType::Select {
            let members = if g.proxies.len() == 0 { seq!["direct"@] } else { g.proxies };
            let o = OutboundModel::Selector { tag: g.name, outbounds: members, default: members[0] };
            assert forall|i: int| 0 <= i < prev.push(o).len() implies (#[trigger] prev.push(o)[i]) is Selector by {
                if i < prev.len() {
                    assert(prev.push(o)[i] == prev[i]);
                }
            }
        }
    }
}

/// No proxy is ever routed straight out: the only direct outbound of a
/// plan is the one tagged `direct`.
pub proof fn law_no_proxy_goes_direct(c: NaryaConfigModel, active: Option<Seq<char>>)
    ensures
        forall|i: int| 0 <= i < planned_outbounds(c, active).len() ==> not_a_stray_direct(
            #[trigger] planned_outbounds(c, active)[i],
        ),
{
    let members = selector_members(c.proxies);
    let head = seq![OutboundModel::Direct { tag: "direct"@ }] + c.proxies.map_values(|p: ProxyModel| proxy_outbound(p));
    let sel = OutboundModel::Selector { tag: "proxy"@, outbounds: members, default: selector_default(members, active) };
    let gsel = group_selectors(c.groups);
    lemma_group_selectors_are_selectors(c.groups);
    let base = base_outbounds(c, active);
    assert(base == head + seq![sel] + gsel);
    assert forall|i: int| 0 <= i < base.len() implies not_a_stray_direct(#[trigger] base[i]) by {
        if i < head.len() {
            assert(base[i] == head[i]);
            if i > 0 {
                assert(head[i] == proxy_outbound(c.proxies[i - 1]));
            }
        } else if i == head.len() {
            assert(base[i] == sel);
        } else {
            assert(base[i] == gsel[i - head.len() - 1]);
        }
    }
    let out = planned_outbounds(c, active);
    assert forall|i: int| 0 <= i < out.len() implies not_a_stray_direct(#[trigger] out[i]) by {
        if i < base.len() {
            assert(out[i] == base[i]);
        }
    }
}

fn tag_of(o: &Outbound) -> (t: &String)
    ensures
        t@ == outbound_tag(o@),
{
    match o {
        Outbound::Direct { tag } => tag,
        Outbound::Shadowsocks { tag, .. } => tag,
        Outbound::Trojan { tag, .. } => tag,
        Outbound::Selector { tag, .. } => tag,
        Outbound::Block { tag } => tag,
    }
}

fn plan_proxy(p: &Proxy) -> (o: Option<Outbound>)
    ensures
        o is Some <==> supported_protocol(p@),
        o matches Some(ob) ==> ob@ == proxy_outbound(p@),
{
    let t = to_lowercase(p.proxy_type.as_str());
    if t == String::from_str("ss") || t == String::from_str("shadowsocks") {
        Some(Outbound::Shadowsocks {
            tag: p.name.clone(),
            server: p.server.clone(),
            server_port: p.port,
            method: String::from_str("aes-128-gcm"),
            password: String::from_str("password"),
        })
    } else if t == String::from_str("trojan") {
        Some(Outbound::Trojan {
            tag: p.name.clone(),
            server: p.server.clone(),
            server_port: p.port,
            password: String::from_str("password"),
        })
    } else {
        None
    }
}

fn strings_contain(v: &Vec<String>, s: &str) -> (r: bool)
    ensures
        r == strings_view(v@).contains(s@),
{
    let mut i: usize = 0;
    while i < v.len()
        invariant
            i <= v.len(),
            forall|k: int| 0 <= k < i ==> strings_view(v@)[k] != s@,
        decreases v.len() - i,
    {
        if str_eq(v[i].as_str(), s) {
            assert(strings_view(v@)[i as int] == s@);
            return true;
        }
        i += 1;
    }
    false
}

fn plan_rule(r: &Rule) -> (rr: RouteRule)
    ensures
        rr@ == route_rule(r@),
{
    let outbound = match &r.action {
        Action::Direct => String::from_str("direct"),
        Action::Proxy(t) => t.clone(),
        Action::Reject => String::from_str("block"),
    };
    let condition = match r.rule_type {
        RuleType::Domain => RouteMatch::Domain(clone_strings(&r.payload)),
        RuleType::DomainSuffix => RouteMatch::DomainSuffix(clone_strings(&r.payload)),
        RuleType::IpCidr => RouteMatch::IpCidr(clone_strings(&r.payload)),
        _ => RouteMatch::Unconditional,
    };
    RouteRule { outbound, condition }
}

fn plan_group(g: &ProxyGroup) -> (o: Outbound)
    requires
        g.group_type == GroupType::Select,
    ensures
        ({
            let members = if g@.proxies.len() == 0 { seq!["direct"@] } else { g@.proxies };
            o@ == OutboundModel::Selector { tag: g@.name, outbounds: members, default: members[0] }
        }),
{
    let mut members = clone_strings(&g.proxies);
    if members.len() == 0 {
        members.push(String::from_str("direct"));
        assert(strings_view(members@) =~= seq!["direct"@]);
    }
    let default = members[0].clone();
    Outbound::Selector { tag: g.name.clone(), outbounds: members, default }
}

/// A proxy the planner refused: no outbound of its protocol exists, and
/// it is never turned into a direct route.
#[derive(Debug, Clone, PartialEq, Eq)]
pub struct UnsupportedProtocol {
    /// The refused proxy's name.
    pub proxy: String,
    /// Its type, as written.
    pub protocol: String,
}

impl UnsupportedProtocol {
    /// The message shown for this error.
    pub fn message(&self) -> (s: String)
        ensures
            s@ == "unsupported proxy protocol "@ + self.protocol@ + " for "@ + self.proxy@,
    {
        String::from_str("unsupported proxy protocol ").concat(self.protocol.as_str()).concat(" for ").concat(
            self.proxy.as_str(),
        )
    }
}

/// The sing-box configuration for `config`: a mixed inbound on the
/// configured port, the planned outbounds and one route rule per rule.
/// A proxy of an unsupported protocol refuses the whole configuration.
pub struct Transformer;

impl Transformer {
    pub fn transform(config: &NaryaConfig, active_node: Option<&str>) -> (r: Result<SingBoxConfig, UnsupportedProtocol>)
        ensures
            r is Ok <==> all_protocols_supported(config@.proxies),
            r matches Ok(out) ==> out@ == planned_config(config@, match active_node { Some(a) => Some(a@), None => None }),
            r matches Err(e) ==> exists|i: int| #[trigger] first_unsupported_proxy(config@.proxies, i)
                && e.proxy@ == config@.proxies[i].name && e.protocol@ == config@.proxies[i].proxy_type,
    {
        let ghost active = match active_node { Some(a) => Some(a@), None => None::<Seq<char>> };
        let ghost c = config@;
        let mut inbounds: Vec<Inbound> = Vec::new();
        inbounds.push(Inbound {
            inbound_type: String::from_str("mixed"),
            listen: String::from_str("127.0.0.1"),
            listen_port: config.settings.mixed_port,
        });

        let mut outbounds: Vec<Outbound> = Vec::new();
        outbounds.push(Outbound::Direct { tag: String::from_str("direct") });
        let mut i: usize = 0;
        while i < config.proxies.len()
            invariant
                i <= config.proxies.len(),
                c == config@,
                outbounds@.map_values(|o: Outbound| o@) == seq![OutboundModel::Direct { tag: "direct"@ }]
                    + c.proxies.take(i as int).map_values(|p: ProxyModel| proxy_outbound(p)),
                forall|j: int| 0 <= j < i ==> supported_protocol(#[trigger] c.proxies[j]),
            decreases config.proxies.len() - i,
        {
            let ghost prev = outbounds@;
            assert(c.proxies[i as int] == config.proxies@[i as int]@);
            let o = match plan_proxy(&config.proxies[i]) {
                Some(o) => o,
                None => {
                    assert(first_unsupported_proxy(c.proxies, i as int));
                    return Err(UnsupportedProtocol {
                        proxy: config.proxies[i].name.clone(),
                        protocol: config.proxies[i].proxy_type.clone(),
                    });
                },
            };
            outbounds.push(o);
            proof {
                lemma_map_push(prev, o, |o: Outbound| o@);
                lemma_map_take_push(c.proxies, i as int, |p: ProxyModel| proxy_outbound(p));
                assert(c.proxies[i as int] == config.proxies@[i as int]@);
            }
            assert(outbounds@.map_values(|o: Outbound| o@) =~= seq![OutboundModel::Direct { tag: "direct"@ }]
                + c.proxies.take(i + 1).map_values(|p: ProxyModel| proxy_outbound(p)));
            i += 1;
        }
        assert(c.proxies.take(config.proxies.len() as int) =~= c.proxies);
        assert(all_protocols_supported(c.proxies));

        let mut members: Vec<String> = Vec::new();
        let mut j: usize = 0;
        while j < config.proxies.len()
            invariant
                j <= config.proxies.len(),
                c == config@,
                strings_view(members@) == c.proxies.take(j as int).map_values(|p: ProxyModel| p.name),
            decreases config.proxies.len() - j,
        {
            let ghost prev = members@;
            let n = config.proxies[j].name.clone();
            members.push(n);
            proof {
                lemma_map_push(prev, n, |s: String| s@);
                lemma_map_take_push(c.proxies, j as int, |p: ProxyModel| p.name);
                assert(c.proxies[j as int] == config.proxies@[j as int]@);
            }
            assert(strings_view(members@) =~= c.proxies.take(j + 1).map_values(|p: ProxyModel| p.name));
            j += 1;
        }
        if members.len() == 0 {
            members.push(String::from_str("direct"));
            assert(strings_view(members@) =~= seq!["direct"@]);
        }
        assert(strings_view(members@) == selector_members(c.proxies));
        let default = match active_node {
            Some(a) => if strings_contain(&members, a) { String::from_str(a) } else { members[0].clone() },
            None => members[0].clone(),
        };
        let ghost with_proxies = outbounds@.map_values(|o: Outbound| o@);
        outbounds.push(Outbound::Selector { tag: String::from_str("proxy"), outbounds: members, default });

        let ghost before_groups = outbounds@.map_values(|o: Outbound| o@);
        assert(before_groups =~= with_proxies + seq![
            OutboundModel::Selector { tag: "proxy"@, outbounds: selector_members(c.proxies), default: selector_default(selector_members(c.proxies), active) },
        ]);
        let mut g: usize = 0;
        while g < config.groups.len()
            invariant
                g <= config.groups.len(),
                c == config@,
                outbounds@.map_values(|o: Outbound| o@) == before_groups + group_selectors(c.groups.take(g as int)),
            decreases config.groups.len() - g,
        {
            assert(c.groups.take(g + 1).drop_last() =~= c.groups.take(g as int));
            assert(c.groups.take(g + 1).last() == config.groups@[g as int]@);
            if config.groups[g].group_type == GroupType::Select {
                let ghost prev = outbounds@;
                let o = plan_group(&config.groups[g]);
                outbounds.push(o);
                proof {
                    lemma_map_push(prev, o, |o: Outbound| o@);
                }
            }
            assert(outbounds@.map_values(|o: Outbound| o@) =~= before_groups + group_selectors(c.groups.take(g + 1)));
            g += 1;
        }
        assert(c.groups.take(config.groups.len() as int) =~= c.groups);
        let ghost base = outbounds@.map_values(|o: Outbound| o@);
        assert(base =~= base_outbounds(c, active));

        let mut has_block = false;
        let mut k: usize = 0;
        while k < outbounds.len()
            invariant
                k <= outbounds.len(),
                base == outbounds@.map_values(|o: Outbound| o@),
                has_block == exists|m: int| 0 <= m < k && outbound_tag(#[trigger] base[m]) == "block"@,
            decreases outbounds.len() - k,
        {
            assert(base[k as int] == outbounds@[k as int]@);
            if str_eq(tag_of(&outbounds[k]).as_str(), "block") {
                has_block = true;
            }
            k += 1;
        }
        assert(has_block == some_tagged(base, "block"@));
        let ghost base_has_block = has_block;

        let mut rules: Vec<RouteRule> = Vec::new();
        let mut r: usize = 0;
        while r < config.rules.len()
            invariant
                r <= config.rules.len(),
                c == config@,
                base == base_outbounds(c, active),
                base_has_block == some_tagged(base, "block"@),
                rules@.map_values(|x: RouteRule| x@) == c.rules.take(r as int).map_values(|x: RuleModel| route_rule(x)),
                outbounds@.map_values(|o: Outbound| o@) == if some_rule_blocks(c.rules.take(r as int)) && !base_has_block {
                    base.push(OutboundModel::Block { tag: "block"@ })
                } else {
                    base
                },
                has_block == (base_has_block || some_rule_blocks(c.rules.take(r as int))),
            decreases config.rules.len() - r,
        {
            let rr = plan_rule(&config.rules[r]);
            assert(c.rules.take(r + 1)[r as int] == c.rules[r as int]);
            assert(forall|m: int| 0 <= m < r ==> c.rules.take(r + 1)[m] == #[trigger] c.rules.take(r as int)[m]);
            proof {
                lemma_map_take_push(c.rules, r as int, |x: RuleModel| route_rule(x));
                assert(c.rules[r as int] == config.rules@[r as int]@);
                assert(c.rules.take(r + 1) =~= c.rules.take(r as int).push(c.rules[r as int]));
            }
            if str_eq(rr.outbound.as_str(), "block") && !has_block {
                let ghost prev = outbounds@;
                let o = Outbound::Block { tag: String::from_str("block") };
                outbounds.push(o);
                proof {
                    lemma_map_push(prev, o, |o: Outbound| o@);
                }
                has_block = true;
            }
            let ghost prev_rules = rules@;
            rules.push(rr);
            proof {
                lemma_map_push(prev_rules, rr, |x: RouteRule| x@);
            }
            assert(rules@.map_values(|x: RouteRule| x@) =~= c.rules.take(r + 1).map_values(|x: RuleModel| route_rule(x)));
            r += 1;
        }
        assert(c.rules.take(config.rules.len() as int) =~= c.rules);
        assert(inbounds@.map_values(|i: Inbound| i@) =~= planned_config(c, active).inbounds);
        assert(outbounds@.map_values(|o: Outbound| o@) == planned_config(c, active).outbounds);
        assert(rules@.map_values(|x: RouteRule| x@) == planned_config(c, active).rules);
        Ok(SingBoxConfig { log_level: String::from_str("info"), inbounds, outbounds, rules })
    }
}

/// Each rule becomes one route rule, in order, that matches what the rule
/// matches: a domain, domain-suffix or IP-CIDR rule keeps its payload under
/// the matching sing-box field, and only rule types sing-box has no field
/// for match unconditionally. The route rule leaves through `direct`, the
/// named group, or `block` for a rejecting rule.
pub proof fn law_route_rules_keep_their_match(c: NaryaConfigModel, active: Option<Seq<char>>)
    ensures
        planned_config(c, active).rules.len() == c.rules.len(),
        forall|i: int| #![trigger planned_config(c, active).rules[i]] 0 <= i < c.rules.len() ==> {
            let rr = planned_config(c, active).rules[i];
            let r = c.rules[i];
            &&& r.rule_type == RuleType::Domain ==> rr.condition == RouteMatchModel::Domain(r.payload)
            &&& r.rule_type == RuleType::DomainSuffix ==> rr.condition == RouteMatchModel::DomainSuffix(r.payload)
            &&& r.rule_type == RuleType::IpCidr ==> rr.condition == RouteMatchModel::IpCidr(r.payload)
            &&& (r.rule_type == RuleType::DomainKeyword || r.rule_type == RuleType::DomainRegex || r.rule_type
                == RuleType::Geoip || r.rule_type == RuleType::ProcessName || r.rule_type == RuleType::PackageName)
                ==> rr.condition == RouteMatchModel::Unconditional
            &&& rr.outbound == match r.action {
                ActionModel::Direct => "direct"@,
                ActionModel::Proxy(t) => t,
                ActionModel::Reject => "block"@,
            }
        },
{
}

} // verus!
