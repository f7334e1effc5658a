//! The configuration model: subscriptions, proxies, proxy groups, rules and
//! settings, each with a mathematical view that contracts speak of.

use vstd::prelude::*;

verus! {

/// The characters of each string, in order.
pub open spec fn strings_view(v: Seq<String>) -> Seq<Seq<char>> {
    v.map_values(|s: String| s@)
}

/// A subscription source.
#[derive(Debug, Clone)]
pub struct Subscription {
    pub name: String,
    pub url: String,
    pub tag: String,
    pub enabled: bool,
}

pub struct SubscriptionModel {
    pub name: Seq<char>,
    pub url: Seq<char>,
    pub tag: Seq<char>,
    pub enabled: bool,
}

impl View for Subscription {
    type V = SubscriptionModel;

    open spec fn view(&self) -> SubscriptionModel {
        SubscriptionModel {
            name: self.name@,
            url: self.url@,
            tag: self.tag@,
            enabled: self.enabled,
        }
    }
}

/// A proxy node taken from a subscription.
#[derive(Debug, Clone)]
pub struct Proxy {
    pub name: String,
    pub proxy_type: String,
    pub server: String,
    pub port: u16,
}

pub struct ProxyModel {
    pub name: Seq<char>,
    pub proxy_type: Seq<char>,
    pub server: Seq<char>,
    pub port: u16,
}

impl View for Proxy {
    type V = ProxyModel;

    open spec fn view(&self) -> ProxyModel {
        ProxyModel {
            name: self.name@,
            proxy_type: self.proxy_type@,
            server: self.server@,
            port: self.port,
        }
    }
}

/// How a proxy group picks among its members.
#[derive(Debug, Clone, Copy, PartialEq, Eq, Structural)]
pub enum GroupType {
    Select,
    UrlTest,
    Fallback,
    LoadBalance,
    Relay,
}

/// A named group of proxies.
#[derive(Debug, Clone)]
pub struct ProxyGroup {
    pub name: String,
    pub group_type: GroupType,
    pub proxies: Vec<String>,
}

pub struct ProxyGroupModel {
    pub name: Seq<char>,
    pub group_type: GroupType,
    pub proxies: Seq<Seq<char>>,
}

impl View for ProxyGroup {
    type V = ProxyGroupModel;

    open spec fn view(&self) -> ProxyGroupModel {
        ProxyGroupModel {
            name: self.name@,
            group_type: self.group_type,
            proxies: strings_view(self.proxies@),
        }
    }
}

/// What a rule's payload is matched against.
#[derive(Debug, Clone, Copy, PartialEq, Eq, Structural)]
pub enum RuleType {
    Domain,
    DomainSuffix,
    DomainKeyword,
    DomainRegex,
    IpCidr,
    Geoip,
    ProcessName,
    PackageName,
}

/// Where matching traffic goes.
#[derive(Debug, Clone)]
pub enum Action {
    Direct,
    /// A proxy group, by name.
    Proxy(String),
    Reject,
}

pub enum ActionModel {
    Direct,
    Proxy(Seq<char>),
    Reject,
}

impl View for Action {
    type V = ActionModel;

    open spec fn view(&self) -> ActionModel {
        match self {
            Action::Direct => ActionModel::Direct,
            Action::Proxy(g) => ActionModel::Proxy(g@),
            Action::Reject => ActionModel::Reject,
        }
    }
}

/// A routing rule.
#[derive(Debug, Clone)]
pub struct Rule {
    pub name: String,
    pub rule_type: RuleType,
    pub payload: Vec<String>,
    pub action: Action,
}

pub struct RuleModel {
    pub name: Seq<char>,
    pub rule_type: RuleType,
    pub payload: Seq<Seq<char>>,
    pub action: ActionModel,
}

impl View for Rule {
    type V = RuleModel;

    open spec fn view(&self) -> RuleModel {
        RuleModel {
            name: self.name@,
            rule_type: self.rule_type,
            payload: strings_view(self.payload@),
            action: self.action@,
        }
    }
}

/// TUN device settings.
#[derive(Debug, Clone)]
pub struct TunSettings {
    pub enabled: bool,
    /// Network stack: gVisor, System, ...
    pub stack: String,
    pub device: String,
    pub auto_route: bool,
}

pub struct TunSettingsModel {
    pub enabled: bool,
    pub stack: Seq<char>,
    pub device: Seq<char>,
    pub auto_route: bool,
}

impl View for TunSettings {
    type V = TunSettingsModel;

    open spec fn view(&self) -> TunSettingsModel {
        TunSettingsModel {
            enabled: self.enabled,
            stack: self.stack@,
            device: self.device@,
            auto_route: self.auto_route,
        }
    }
}

/// Local proxy settings.
#[derive(Debug, Clone)]
pub struct Settings {
    pub tun: TunSettings,
    pub system_proxy: bool,
    pub mixed_port: u16,
}

pub struct SettingsModel {
    pub tun: TunSettingsModel,
    pub system_proxy: bool,
    pub mixed_port: u16,
}

impl View for Settings {
    type V = SettingsModel;

    open spec fn view(&self) -> SettingsModel {
        SettingsModel {
            tun: self.tun@,
            system_proxy: self.system_proxy,
            mixed_port: self.mixed_port,
        }
    }
}

/// A whole Narya configuration.
#[derive(Debug, Clone)]
pub struct NaryaConfig {
    pub subscriptions: Vec<Subscription>,
    pub proxies: Vec<Proxy>,
    pub groups: Vec<ProxyGroup>,
    pub rules: Vec<Rule>,
    pub settings: Settings,
}

pub struct NaryaConfigModel {
    pub subscriptions: Seq<SubscriptionModel>,
    pub proxies: Seq<ProxyModel>,
    pub groups: Seq<ProxyGroupModel>,
    pub rules: Seq<RuleModel>,
    pub settings: SettingsModel,
}

impl View for NaryaConfig {
    type V = NaryaConfigModel;

    open spec fn view(&self) -> NaryaConfigModel {
        NaryaConfigModel {
            subscriptions: self.subscriptions@.map_values(|s: Subscription| s@),
            proxies: self.proxies@.map_values(|p: Proxy| p@),
            groups: self.groups@.map_values(|g: ProxyGroup| g@),
            rules: self.rules@.map_values(|r: Rule| r@),
            settings: self.settings@,
        }
    }
}

/// The settings of a fresh configuration: TUN off on a gVisor stack named
/// `utun` with automatic routes, system proxy on, mixed port 7890.
pub open spec fn default_settings() -> SettingsModel {
    SettingsModel {
        tun: TunSettingsModel {
            enabled: false,
            stack: "gvisor"@,
            device: "utun"@,
            auto_route: true,
        },
        system_proxy: true,
        mixed_port: 7890,
    }
}

impl NaryaConfig {
    /// An empty configuration with the default settings.
    pub fn default() -> (c: NaryaConfig)
        ensures
            c@.subscriptions.len() == 0,
            c@.proxies.len() == 0,
            c@.groups.len() == 0,
            c@.rules.len() == 0,
            c@.settings == default_settings(),
    {
        let c = NaryaConfig {
            subscriptions: Vec::new(),
            proxies: Vec::new(),
            groups: Vec::new(),
            rules: Vec::new(),
            settings: Settings {
                tun: TunSettings {
                    enabled: false,
                    stack: String::from_str("gvisor"),
                    device: String::from_str("utun"),
                    auto_route: true,
                },
                system_proxy: true,
                mixed_port: 7890,
            },
        };
        assert(c@.settings == default_settings());
        c
    }
}

/// Two lists of strings hold the same strings in the same order.
pub fn strings_eq(a: &Vec<String>, b: &Vec<String>) -> (r: bool)
    ensures
        r == (strings_view(a@) == strings_view(b@)),
{
    if a.len() != b.len() {
        assert(strings_view(a@).len() != strings_view(b@).len());
        return false;
    }
    let mut i: usize = 0;
    while i < a.len()
        invariant
            a.len() == b.len(),
            i <= a.len(),
            forall|k: int| 0 <= k < i ==> a@[k]@ == b@[k]@,
        decreases a.len() - i,
    {
        if a[i] != b[i] {
            assert(strings_view(a@)[i as int] != strings_view(b@)[i as int]);
            return false;
        }
        i += 1;
    }
    assert(strings_view(a@) =~= strings_view(b@));
    true
}

/// A copy of a list of strings.
pub fn clone_strings(v: &Vec<String>) -> (r: Vec<String>)
    ensures
        strings_view(r@) == strings_view(v@),
{
    let mut r: Vec<String> = Vec::new();
    let mut i: usize = 0;
    while i < v.len()
        invariant
            i <= v.len(),
            r@.len() == i,
            strings_view(r@) == strings_view(v@.take(i as int)),
        decreases v.len() - i,
    {
        let ghost prev = r@;
        let s: String = v[i].clone();
        r.push(s);
        assert forall|k: int| 0 <= k < i + 1 implies #[trigger] strings_view(r@)[k] == strings_view(v@.take(i + 1))[k] by {
            if k < i {
                assert(strings_view(prev)[k] == strings_view(v@.take(i as int))[k]);
            }
        }
        assert(strings_view(r@) =~= strings_view(v@.take(i + 1)));
        i += 1;
    }
    assert(v@.take(v.len() as int) =~= v@);
    r
}

impl Action {
    /// A copy of this action.
    pub fn copy(&self) -> (r: Action)
        ensures
            r@ == self@,
    {
        match self {
            Action::Direct => Action::Direct,
            Action::Proxy(g) => Action::Proxy(g.clone()),
            Action::Reject => Action::Reject,
        }
    }
}

impl Rule {
    /// A copy of this rule.
    pub fn copy(&self) -> (r: Rule)
        ensures
            r@ == self@,
    {
        Rule {
            name: self.name.clone(),
            rule_type: self.rule_type,
            payload: clone_strings(&self.payload),
            action: self.action.copy(),
        }
    }
}

impl ProxyGroup {
    /// A copy of this group.
    pub fn copy(&self) -> (r: ProxyGroup)
        ensures
            r@ == self@,
    {
        ProxyGroup { name: self.name.clone(), group_type: self.group_type, proxies: clone_strings(&self.proxies) }
    }
}

impl Subscription {
    /// Field-by-field equality.
    pub fn same_as(&self, other: &Subscription) -> (r: bool)
        ensures
            r == (self@ == other@),
    {
        self.name == other.name && self.url == other.url && self.tag == other.tag
            && self.enabled == other.enabled
    }
}

impl ProxyGroup {
    /// Field-by-field equality.
    pub fn same_as(&self, other: &ProxyGroup) -> (r: bool)
        ensures
            r == (self@ == other@),
    {
        self.name == other.name && self.group_type == other.group_type && strings_eq(
            &self.proxies,
            &other.proxies,
        )
    }
}

impl PartialEq for Action {
    fn eq(&self, other: &Self) -> (r: bool) {
        self.same_as(other)
    }
}

impl vstd::std_specs::cmp::PartialEqSpecImpl for Action {
    open spec fn obeys_eq_spec() -> bool {
        true
    }

    open spec fn eq_spec(&self, other: &Self) -> bool {
        self@ == other@
    }
}

impl Action {
    /// Variant and target equality.
    pub fn same_as(&self, other: &Action) -> (r: bool)
        ensures
            r == (self@ == other@),
    {
        match self {
            Action::Direct => other.is_direct(),
            Action::Reject => other.is_reject(),
            Action::Proxy(a) => other.is_proxy_to(a),
        }
    }

    fn is_proxy_to(&self, target: &String) -> (r: bool)
        ensures
            r == (self@ == ActionModel::Proxy(target@)),
    {
        match self {
            Action::Proxy(b) => {
                let r = *b == *target;
                r
            },
            _ => false,
        }
    }

    fn is_direct(&self) -> (r: bool)
        ensures
            r == (self@ == ActionModel::Direct),
    {
        match self {
            Action::Direct => true,
            _ => false,
        }
    }

    fn is_reject(&self) -> (r: bool)
        ensures
            r == (self@ == ActionModel::Reject),
    {
        match self {
            Action::Reject => true,
            _ => false,
        }
    }
}

impl Rule {
    /// Field-by-field equality.
    pub fn same_as(&self, other: &Rule) -> (r: bool)
        ensures
            r == (self@ == other@),
    {
        self.name == other.name && self.rule_type == other.rule_type && strings_eq(
            &self.payload,
            &other.payload,
        ) && self.action.same_as(&other.action)
    }
}

impl Settings {
    /// Field-by-field equality.
    pub fn same_as(&self, other: &Settings) -> (r: bool)
        ensures
            r == (self@ == other@),
    {
        self.tun.enabled == other.tun.enabled && self.tun.stack == other.tun.stack
            && self.tun.device == other.tun.device && self.tun.auto_route == other.tun.auto_route
            && self.system_proxy == other.system_proxy && self.mixed_port == other.mixed_port
    }
}

/// Two subscription lists are equal element by element.
pub fn subscriptions_eq(a: &Vec<Subscription>, b: &Vec<Subscription>) -> (r: bool)
    ensures
        r == (a@.map_values(|s: Subscription| s@) == b@.map_values(|s: Subscription| s@)),
{
    if a.len() != b.len() {
        assert(a@.map_values(|s: Subscription| s@).len() != b@.map_values(|s: Subscription| s@).len());
        return false;
    }
    let mut i: usize = 0;
    while i < a.len()
        invariant
            a.len() == b.len(),
            i <= a.len(),
            forall|k: int| 0 <= k < i ==> a@[k]@ == b@[k]@,
        decreases a.len() - i,
    {
        if !a[i].same_as(&b[i]) {
            assert(a@.map_values(|s: Subscription| s@)[i as int] != b@.map_values(|s: Subscription| s@)[i as int]);
            return false;
        }
        i += 1;
    }
    assert(a@.map_values(|s: Subscription| s@) =~= b@.map_values(|s: Subscription| s@));
    true
}

/// Two rule lists are equal element by element.
pub fn rules_eq(a: &Vec<Rule>, b: &Vec<Rule>) -> (r: bool)
    ensures
        r == (a@.map_values(|x: Rule| x@) == b@.map_values(|x: Rule| x@)),
{
    if a.len() != b.len() {
        assert(a@.map_values(|x: Rule| x@).len() != b@.map_values(|x: Rule| x@).len());
        return false;
    }
    let mut i: usize = 0;
    while i < a.len()
        invariant
            a.len() == b.len(),
            i <= a.len(),
            forall|k: int| 0 <= k < i ==> a@[k]@ == b@[k]@,
        decreases a.len() - i,
    {
        if !a[i].same_as(&b[i]) {
            assert(a@.map_values(|x: Rule| x@)[i as int] != b@.map_values(|x: Rule| x@)[i as int]);
            return false;
        }
        i += 1;
    }
    assert(a@.map_values(|x: Rule| x@) =~= b@.map_values(|x: Rule| x@));
    true
}

} // verus!
