//! What the client's pages summarise: which rules a search shows, latency
//! figures, and the kernel and credential status lines.

use vstd::prelude::*;
use crate::routing::{ActionModel, Rule};
use crate::session::{KernelInfo, KernelInfoModel, NaryaStatus, first_kernel, kernels_view};
use crate::text::{chars_of, contains_chars, contains_seq, str_eq, string_from_chars, trim, trim_range};

verus! {

/// `c` with ASCII uppercase letters made lowercase.
pub open spec fn ascii_lower(c: char) -> char {
    if 'A' <= c && c <= 'Z' { ((c as u8) + 32) as char } else { c }
}

/// `s` with ASCII uppercase letters made lowercase, as
/// `str::to_ascii_lowercase` gives it.
pub open spec fn ascii_lowercase(s: Seq<char>) -> Seq<char> {
    s.map_values(|c: char| ascii_lower(c))
}

/// The characters of `s`, ASCII letters lowercased.
pub fn ascii_lowercase_chars(s: &str) -> (v: Vec<char>)
    ensures
        v@ == ascii_lowercase(s@),
{
    let src = chars_of(s);
    let mut v: Vec<char> = Vec::new();
    let mut i: usize = 0;
    while i < src.len()
        invariant
            i <= src.len(),
            v@ == src@.take(i as int).map_values(|c: char| ascii_lower(c)),
        decreases src.len() - i,
    {
        let c = src[i];
        let d = if 'A' <= c && c <= 'Z' { ((c as u8) + 32u8) as char } else { c };
        proof {
            crate::text::lemma_map_take_push(src@, i as int, |c: char| ascii_lower(c));
        }
        v.push(d);
        i += 1;
    }
    assert(src@.take(src.len() as int) =~= src@);
    v
}

/// The key of an action, as the action filter names it.
pub open spec fn action_key(a: ActionModel) -> Seq<char> {
    match a {
        ActionModel::Proxy(_) => "proxy"@,
        ActionModel::Direct => "direct"@,
        ActionModel::Block => "block"@,
        ActionModel::Dns(_) => "dns"@,
    }
}

/// The summary shown for an action.
pub open spec fn action_summary(a: ActionModel) -> Seq<char> {
    match a {
        ActionModel::Proxy(g) => "代理 · "@ + g,
        ActionModel::Direct => "直连"@,
        ActionModel::Block => "阻断"@,
        ActionModel::Dns(server) => "DNS · "@ + server,
    }
}

/// Whether the rules page shows a rule: its action passes the action
/// filter (`all` passes everything), and the search text, compared without
/// ASCII case, is empty or occurs in the rule's id, its action summary or
/// its conditions' summary.
pub open spec fn rule_shown(id: Seq<char>, action: ActionModel, conditions: Seq<char>, filter: Seq<char>, action_filter: Seq<char>) -> bool {
    let f = ascii_lowercase(filter);
    &&& action_filter == "all"@ || action_key(action) == action_filter
    &&& f.len() == 0 || contains_seq(ascii_lowercase(id), f) || contains_seq(ascii_lowercase(action_summary(action)), f)
        || contains_seq(ascii_lowercase(conditions), f)
}

/// Whether the rules page shows `rule` for the search text `filter` and
/// the action filter; `condition_summary` is the one-line text of the
/// rule's conditions.
pub fn rule_is_shown(rule: &Rule, filter: &str, action_filter: &str, condition_summary: &str) -> (r: bool)
    ensures
        r == rule_shown(rule@.id, rule@.action, condition_summary@, filter@, action_filter@),
{
    let key = crate::routing::rule_action_key(&rule.action);
    if !(str_eq(action_filter, "all") || str_eq(key, action_filter)) {
        return false;
    }
    let f = ascii_lowercase_chars(filter);
    if f.len() == 0 {
        return true;
    }
    let summary = crate::routing::rule_action_summary(&rule.action);
    contains_chars(&ascii_lowercase_chars(rule.id.as_str()), &f)
        || contains_chars(&ascii_lowercase_chars(summary.as_str()), &f)
        || contains_chars(&ascii_lowercase_chars(condition_summary), &f)
}

/// Latency figures of a node list.
#[derive(Clone, Copy, PartialEq, Debug, Eq, Structural)]
pub struct LatencyStats {
    /// Nodes with a measured latency.
    pub measured: usize,
    /// Nodes without one.
    pub failed: usize,
    /// The mean of the measured latencies, rounded down.
    pub average: Option<u32>,
    /// The first node with the lowest measured latency.
    pub fastest: Option<usize>,
}

/// The number of measured latencies.
pub open spec fn measured_count(ls: Seq<Option<u32>>) -> nat
    decreases ls.len(),
{
    if ls.len() == 0 {
        0
    } else {
        measured_count(ls.drop_last()) + if ls.last() is Some { 1nat } else { 0nat }
    }
}

/// The sum of the measured latencies.
pub open spec fn latency_sum(ls: Seq<Option<u32>>) -> nat
    decreases ls.len(),
{
    if ls.len() == 0 {
        0
    } else {
        latency_sum(ls.drop_last()) + match ls.last() {
            Some(l) => l as nat,
            None => 0nat,
        }
    }
}

/// The index of the first node with the lowest measured latency, if any.
pub open spec fn fastest_index(ls: Seq<Option<u32>>) -> Option<usize>
    decreases ls.len(),
{
    if ls.len() == 0 {
        None
    } else {
        let prev = fastest_index(ls.drop_last());
        match ls.last() {
            None => prev,
            Some(l) => match prev {
                Some(i) => if ls[i as int]->0 <= l { prev } else { Some((ls.len() - 1) as usize) },
                None => Some((ls.len() - 1) as usize),
            },
        }
    }
}

proof fn lemma_fastest_index_bound(ls: Seq<Option<u32>>)
    requires
        ls.len() <= usize::MAX,
    ensures
        fastest_index(ls) matches Some(i) ==> i < ls.len() && ls[i as int] is Some,
    decreases ls.len(),
{
    if ls.len() > 0 {
        lemma_fastest_index_bound(ls.drop_last());
        match fastest_index(ls.drop_last()) {
            Some(i) => {
                assert(ls.drop_last()[i as int] == ls[i as int]);
            },
            None => {},
        }
    }
}

proof fn lemma_measured_count_bound(ls: Seq<Option<u32>>)
    ensures
        measured_count(ls) <= ls.len(),
    decreases ls.len(),
{
    if ls.len() > 0 {
        lemma_measured_count_bound(ls.drop_last());
    }
}

/// What the latency sum is divided by: the count, or 1 should the count
/// not fit in a `u32`.
pub open spec fn average_divisor(count: nat) -> nat {
    if count <= u32::MAX { count } else { 1 }
}

/// The latency figures of nodes with latencies `ls`; the sum of the
/// measured latencies must fit in a `u32`.
pub fn latency_stats(ls: &Vec<Option<u32>>) -> (s: LatencyStats)
    requires
        latency_sum(ls@) <= u32::MAX,
    ensures
        s.measured == measured_count(ls@),
        s.failed == ls@.len() - measured_count(ls@),
        s.average == if measured_count(ls@) == 0 {
            None::<u32>
        } else {
            Some((latency_sum(ls@) / average_divisor(measured_count(ls@))) as u32)
        },
        s.fastest == fastest_index(ls@),
{
    let mut measured: usize = 0;
    let mut sum: u32 = 0;
    let mut fastest: Option<usize> = None;
    let mut i: usize = 0;
    while i < ls.len()
        invariant
            i <= ls.len(),
            latency_sum(ls@) <= u32::MAX,
            measured == measured_count(ls@.take(i as int)),
            sum == latency_sum(ls@.take(i as int)),
            fastest == fastest_index(ls@.take(i as int)),
            measured <= i,
        decreases ls.len() - i,
    {
        let ghost t = ls@.take(i + 1);
        assert(t.drop_last() =~= ls@.take(i as int));
        assert(t.last() == ls@[i as int]);
        proof {
            lemma_latency_sum_prefix(ls@, i + 1);
            lemma_fastest_index_bound(ls@.take(i as int));
        }
        match ls[i] {
            Some(l) => {
                measured = measured + 1;
                sum = sum + l;
                match fastest {
                    Some(f) => {
                        assert(ls@.take(i as int)[f as int] == ls@[f as int]);
                        let current = match ls[f] {
                            Some(c) => c,
                            None => l,
                        };
                        if current > l {
                            fastest = Some(i);
                        }
                    },
                    None => {
                        fastest = Some(i);
                    },
                }
            },
            None => {},
        }
        i += 1;
    }
    assert(ls@.take(ls.len() as int) =~= ls@);
    proof {
        lemma_measured_count_bound(ls@);
    }
    let divisor: u32 = if measured <= 0xffff_ffffusize { measured as u32 } else { 1 };
    let average = if measured == 0 { None } else { Some(sum / divisor) };
    LatencyStats { measured, failed: ls.len() - measured, average, fastest }
}

proof fn lemma_latency_sum_prefix(ls: Seq<Option<u32>>, k: int)
    requires
        0 <= k <= ls.len(),
    ensures
        latency_sum(ls.take(k)) <= latency_sum(ls),
    decreases ls.len() - k,
{
    if k < ls.len() {
        lemma_latency_sum_prefix(ls, k + 1);
        let t = ls.take(k + 1);
        assert(t.drop_last() =~= ls.take(k));
    } else {
        assert(ls.take(k) =~= ls);
    }
}

/// Whether a node's credentials are set: not when the encryption field is
/// blank or `none` in any ASCII case.
pub open spec fn credential_text(encryption: Seq<char>) -> Seq<char> {
    if trim(encryption).len() == 0 || ascii_lowercase(encryption) == "none"@ {
        "未配置"@
    } else {
        "已配置"@
    }
}

/// The credential status shown for a node.
pub fn credential_status(encryption: &str) -> (s: &'static str)
    ensures
        s@ == credential_text(encryption@),
{
    let v = chars_of(encryption);
    let (a, b) = trim_range(&v, 0, v.len());
    assert(v@.subrange(0, v.len() as int) =~= v@);
    let lower = string_from_chars(ascii_lowercase_chars(encryption).as_slice());
    if a == b || str_eq(lower.as_str(), "none") {
        "未配置"
    } else {
        "已配置"
    }
}

/// The kernel line of the settings page: the active kernel with the
/// version of the first kernel of that name, or "未安装".
pub open spec fn kernel_label_text(ks: Seq<KernelInfoModel>, active: Seq<char>) -> Seq<char> {
    let i = first_kernel(ks, active);
    if i < ks.len() && ks[i].version is Some {
        active + " "@ + ks[i].version->0
    } else {
        active + " 未安装"@
    }
}

/// The kernel line of the settings page.
pub fn kernel_label(kernels: &Vec<KernelInfo>, active_kernel: &str) -> (s: String)
    ensures
        s@ == kernel_label_text(kernels_view(kernels@), active_kernel@),
{
    let i = crate::session::find_kernel(kernels, active_kernel);
    if i < kernels.len() {
        assert(kernels_view(kernels@)[i as int] == kernels@[i as int]@);
        match &kernels[i].version {
            Some(version) => {
                return String::from_str(active_kernel).concat(" ").concat(version.as_str());
            },
            None => {},
        }
    }
    String::from_str(active_kernel).concat(" 未安装")
}

/// The kernel status of the settings page and its tone.
pub fn kernel_status(healthy: bool, kernels: &Vec<KernelInfo>) -> (r: (&'static str, NaryaStatus))
    ensures
        r.0@ == if healthy {
            "健康运行"@
        } else if exists|i: int| 0 <= i < kernels@.len() && (#[trigger] kernels@[i]).installed {
            "已安装，未运行"@
        } else {
            "需要可信工件"@
        },
        r.1 == if healthy { NaryaStatus::Success } else { NaryaStatus::Warning },
{
    let tone = if healthy { NaryaStatus::Success } else { NaryaStatus::Warning };
    if healthy {
        return ("健康运行", tone);
    }
    let mut i: usize = 0;
    while i < kernels.len()
        invariant
            i <= kernels.len(),
            !healthy,
            tone == NaryaStatus::Warning,
            forall|j: int| 0 <= j < i ==> !(#[trigger] kernels@[j]).installed,
        decreases kernels.len() - i,
    {
        if kernels[i].installed {
            assert(kernels@[i as int].installed);
            return ("已安装，未运行", tone);
        }
        i += 1;
    }
    ("需要可信工件", tone)
}

/// A kernel is busy while it is being installed, upgraded, uninstalled,
/// started or stopped.
pub open spec fn kernel_busy(state: Seq<char>) -> bool {
    state == "installing"@ || state == "upgrading"@ || state == "uninstalling"@ || state == "starting"@
        || state == "stopping"@
}

/// Which buttons a kernel's row of the settings page offers.
#[derive(Clone, Copy, PartialEq, Debug, Eq, Structural)]
pub struct KernelActions {
    /// The kernel is the active one and runs.
    pub active: bool,
    /// An operation on the kernel is under way.
    pub busy: bool,
    /// The kernel is installed: upgrade, uninstall and start are offered,
    /// otherwise install is.
    pub installed: bool,
    /// Upgrade, uninstall and start may be clicked: not while the kernel is
    /// the running one or busy.
    pub manage_enabled: bool,
    /// Install may be clicked: not while busy.
    pub install_enabled: bool,
}

/// The buttons of the row of kernel `k` when `active_kernel` is in use.
pub open spec fn kernel_actions_of(k: KernelInfoModel, active_kernel: Seq<char>) -> KernelActions {
    let active = k.name == active_kernel && k.running;
    let busy = kernel_busy(k.state);
    KernelActions {
        active,
        busy,
        installed: k.installed,
        manage_enabled: !(active || busy),
        install_enabled: !busy,
    }
}

/// The buttons of a kernel's row on the settings page.
pub fn kernel_actions(kernel: &KernelInfo, active_kernel: &str) -> (a: KernelActions)
    ensures
        a == kernel_actions_of(kernel@, active_kernel@),
{
    let active = str_eq(kernel.name.as_str(), active_kernel) && kernel.running;
    let st = kernel.state.as_str();
    let busy = str_eq(st, "installing") || str_eq(st, "upgrading") || str_eq(st, "uninstalling")
        || str_eq(st, "starting") || str_eq(st, "stopping");
    KernelActions {
        active,
        busy,
        installed: kernel.installed,
        manage_enabled: !(active || busy),
        install_enabled: !busy,
    }
}

/// `a` equals one of `names` when ASCII case is ignored.
pub open spec fn names_protocol(a: Seq<char>, names: Seq<Seq<char>>) -> bool {
    exists|j: int| 0 <= j < names.len() && ascii_lowercase(a) == ascii_lowercase(#[trigger] names[j])
}

/// The number of protocols that `names` names, ignoring ASCII case.
pub open spec fn protocol_count_of(protocols: Seq<Seq<char>>, names: Seq<Seq<char>>) -> nat
    decreases protocols.len(),
{
    if protocols.len() == 0 {
        0
    } else {
        protocol_count_of(protocols.drop_last(), names) + if names_protocol(protocols.last(), names) {
            1nat
        } else {
            0nat
        }
    }
}

fn chars_equal(a: &Vec<char>, b: &Vec<char>) -> (r: bool)
    ensures
        r == (a@ == b@),
{
    if a.len() != b.len() {
        return false;
    }
    let mut i: usize = 0;
    while i < a.len()
        invariant
            i <= a.len(),
            a.len() == b.len(),
            forall|j: int| 0 <= j < i ==> a@[j] == b@[j],
        decreases a.len() - i,
    {
        if a[i] != b[i] {
            return false;
        }
        i += 1;
    }
    assert(a@ =~= b@);
    true
}

/// How many of the nodes' protocols one of `names` names, ignoring ASCII
/// case; the dashboard shows it as a share of all nodes.
pub fn protocol_count(protocols: &Vec<String>, names: &Vec<String>) -> (n: usize)
    ensures
        n == protocol_count_of(crate::model::strings_view(protocols@), crate::model::strings_view(names@)),
{
    let ghost ps = crate::model::strings_view(protocols@);
    let ghost ns = crate::model::strings_view(names@);
    let mut count: usize = 0;
    let mut i: usize = 0;
    while i < protocols.len()
        invariant
            i <= protocols.len(),
            ps == crate::model::strings_view(protocols@),
            ns == crate::model::strings_view(names@),
            count == protocol_count_of(ps.take(i as int), ns),
            count <= i,
        decreases protocols.len() - i,
    {
        let p = ascii_lowercase_chars(protocols[i].as_str());
        let mut found = false;
        let mut j: usize = 0;
        while j < names.len()
            invariant
                j <= names.len(),
                ns == crate::model::strings_view(names@),
                p@ == ascii_lowercase(protocols@[i as int]@),
                found == exists|k: int| 0 <= k < j && ascii_lowercase(protocols@[i as int]@) == ascii_lowercase(#[trigger] ns[k]),
            decreases names.len() - j,
        {
            let q = ascii_lowercase_chars(names[j].as_str());
            if chars_equal(&p, &q) {
                found = true;
            }
            assert(ns[j as int] == names@[j as int]@);
            j += 1;
        }
        let ghost t = ps.take(i + 1);
        assert(t.drop_last() =~= ps.take(i as int));
        assert(t.last() == protocols@[i as int]@);
        if found {
            count = count + 1;
        }
        i += 1;
    }
    assert(ps.take(protocols.len() as int) =~= ps);
    count
}

/// The titles of the settings categories, in order.
pub open spec fn settings_titles() -> Seq<Seq<char>> {
    seq![
        "常规设置"@,
        "外观设置"@,
        "网络设置"@,
        "IPv6 设置"@,
        "内核设置"@,
        "TUN 设置"@,
        "DNS 设置"@,
        "安全设置"@,
        "通知设置"@,
        "更新设置"@,
        "高级设置"@,
    ]
}

/// The title of a settings category; an unknown category is the general one.
pub fn settings_category_title(category: usize) -> (s: &'static str)
    ensures
        s@ == if category < settings_titles().len() { settings_titles()[category as int] } else { "常规设置"@ },
{
    if category == 1 {
        "外观设置"
    } else if category == 2 {
        "网络设置"
    } else if category == 3 {
        "IPv6 设置"
    } else if category == 4 {
        "内核设置"
    } else if category == 5 {
        "TUN 设置"
    } else if category == 6 {
        "DNS 设置"
    } else if category == 7 {
        "安全设置"
    } else if category == 8 {
        "通知设置"
    } else if category == 9 {
        "更新设置"
    } else if category == 10 {
        "高级设置"
    } else {
        "常规设置"
    }
}

/// A kernel's health as the settings page words it: healthy, running but
/// failing its checks, or not running.
pub open spec fn kernel_health_text(k: KernelInfoModel) -> Seq<char> {
    if k.healthy {
        "健康"@
    } else if k.running {
        "异常"@
    } else {
        "未运行"@
    }
}

/// The settings page's line for one kernel: its version (or that it has
/// none), its state and its health.
pub open spec fn kernel_description_text(k: KernelInfoModel) -> Seq<char> {
    let version = match k.version {
        Some(v) => v,
        None => "无版本"@,
    };
    version + " · "@ + crate::session::kernel_state_text(k.state) + " · "@ + kernel_health_text(k)
}

/// The settings page's line for one kernel.
pub fn kernel_description(kernel: &KernelInfo) -> (s: String)
    ensures
        s@ == kernel_description_text(kernel@),
{
    let health = if kernel.healthy {
        "健康"
    } else if kernel.running {
        "异常"
    } else {
        "未运行"
    };
    let version = match &kernel.version {
        Some(v) => v.clone(),
        None => String::from_str("无版本"),
    };
    version.concat(" · ").concat(crate::session::kernel_state_label(kernel.state.as_str())).concat(" · ").concat(health)
}

} // verus!
