//! The kernel panel: installing, upgrading, uninstalling and switching proxy
//! kernels through the daemon, and the verified kernel catalog.
//!
//! Each operation is split at the daemon request: a `begin_` method decides
//! whether to send it and what the panel shows meanwhile, a `finish_` method
//! takes the daemon's outcome and updates the panel.

use vstd::prelude::*;
use crate::routing::opt_view;
use crate::session::{
    KernelChoice, KernelInfo, ProxyMode, KernelInfoModel, after_install, after_uninstall, choose_kernel, is_kernel_installed,
    kernel_installed, kernels_view, mark_kernel_installed, mark_kernel_uninstalled, some_kernel_healthy, any_kernel_healthy,
    kernel_running_from_status,
};
use crate::text::{trim, trimmed};

verus! {

/// A kernel release listed in the verified catalog.
#[derive(Clone, Debug)]
pub struct KernelCatalogOption {
    pub kernel: String,
    pub version: String,
    pub platform: String,
    pub architecture: String,
    pub source: String,
    pub sha256: String,
    pub signature: String,
    pub public_key: String,
}

pub struct KernelCatalogOptionModel {
    pub kernel: Seq<char>,
    pub version: Seq<char>,
    pub platform: Seq<char>,
    pub architecture: Seq<char>,
    pub source: Seq<char>,
    pub sha256: Seq<char>,
    pub signature: Seq<char>,
    pub public_key: Seq<char>,
}

impl View for KernelCatalogOption {
    type V = KernelCatalogOptionModel;

    open spec fn view(&self) -> KernelCatalogOptionModel {
        KernelCatalogOptionModel {
            kernel: self.kernel@,
            version: self.version@,
            platform: self.platform@,
            architecture: self.architecture@,
            source: self.source@,
            sha256: self.sha256@,
            signature: self.signature@,
            public_key: self.public_key@,
        }
    }
}

pub open spec fn catalog_view(v: Seq<KernelCatalogOption>) -> Seq<KernelCatalogOptionModel> {
    v.map_values(|o: KernelCatalogOption| o@)
}

/// What the kernel form holds, as typed.
#[derive(Clone, Debug)]
pub struct KernelArtifactDraft {
    pub kernel: String,
    pub version: String,
    pub source: String,
    pub sha256: String,
    pub signature: String,
    pub public_key: String,
}

/// An install or upgrade request for the daemon.
#[derive(Clone, Debug)]
pub struct InstallRequest {
    /// The kernel is installed already, so this upgrades it.
    pub upgrade: bool,
    pub kernel: String,
    pub version: String,
    pub source: String,
    pub sha256: String,
    pub signature: String,
    pub public_key: String,
    pub catalog_platform: String,
    pub catalog_architecture: String,
}

pub struct InstallRequestModel {
    pub upgrade: bool,
    pub kernel: Seq<char>,
    pub version: Seq<char>,
    pub source: Seq<char>,
    pub sha256: Seq<char>,
    pub signature: Seq<char>,
    pub public_key: Seq<char>,
    pub catalog_platform: Seq<char>,
    pub catalog_architecture: Seq<char>,
}

impl View for InstallRequest {
    type V = InstallRequestModel;

    open spec fn view(&self) -> InstallRequestModel {
        InstallRequestModel {
            upgrade: self.upgrade,
            kernel: self.kernel@,
            version: self.version@,
            source: self.source@,
            sha256: self.sha256@,
            signature: self.signature@,
            public_key: self.public_key@,
            catalog_platform: self.catalog_platform@,
            catalog_architecture: self.catalog_architecture@,
        }
    }
}

impl InstallRequest {
    /// The daemon method this request calls.
    pub fn method(&self) -> (s: &'static str)
        ensures
            s@ == if self.upgrade { "UpgradeKernel"@ } else { "InstallKernel"@ },
    {
        if self.upgrade { "UpgradeKernel" } else { "InstallKernel" }
    }
}

/// The index of the first catalog entry for this kernel, version and
/// source, or the catalog's length.
pub open spec fn first_listing(cs: Seq<KernelCatalogOptionModel>, kernel: Seq<char>, version: Seq<char>, source: Seq<char>) -> int
    decreases cs.len(),
{
    if cs.len() == 0 {
        0
    } else if cs[0].kernel == kernel && cs[0].version == version && cs[0].source == source {
        0
    } else {
        1 + first_listing(cs.drop_first(), kernel, version, source)
    }
}

proof fn lemma_first_listing_at(cs: Seq<KernelCatalogOptionModel>, kernel: Seq<char>, version: Seq<char>, source: Seq<char>, i: int)
    requires
        0 <= i <= cs.len(),
        forall|j: int| 0 <= j < i ==> !((#[trigger] cs[j]).kernel == kernel && cs[j].version == version && cs[j].source == source),
        i == cs.len() || (cs[i].kernel == kernel && cs[i].version == version && cs[i].source == source),
    ensures
        first_listing(cs, kernel, version, source) == i,
    decreases i,
{
    if i > 0 {
        assert forall|j: int| 0 <= j < i - 1 implies !((#[trigger] cs.drop_first()[j]).kernel == kernel
            && cs.drop_first()[j].version == version && cs.drop_first()[j].source == source) by {
            assert(cs.drop_first()[j] == cs[j + 1]);
        }
        lemma_first_listing_at(cs.drop_first(), kernel, version, source, i - 1);
    }
}

/// The request the kernel form leads to, or none when the kernel, version,
/// source or SHA-256 is blank. Every field is trimmed; the platform and
/// architecture come from the first matching catalog entry, if any.
pub open spec fn install_request_of(
    draft: KernelArtifactDraft,
    catalog: Seq<KernelCatalogOptionModel>,
    kernels: Seq<KernelInfoModel>,
) -> Option<InstallRequestModel> {
    let k = trim(draft.kernel@);
    let v = trim(draft.version@);
    let s = trim(draft.source@);
    let h = trim(draft.sha256@);
    let i = first_listing(catalog, k, v, s);
    if k.len() == 0 || v.len() == 0 || s.len() == 0 || h.len() == 0 {
        None
    } else {
        Some(InstallRequestModel {
            upgrade: kernel_installed(kernels, k),
            kernel: k,
            version: v,
            source: s,
            sha256: h,
            signature: trim(draft.signature@),
            public_key: trim(draft.public_key@),
            catalog_platform: if i < catalog.len() { catalog[i].platform } else { Seq::empty() },
            catalog_architecture: if i < catalog.len() { catalog[i].architecture } else { Seq::empty() },
        })
    }
}

fn find_listing(catalog: &Vec<KernelCatalogOption>, kernel: &String, version: &String, source: &String) -> (r: usize)
    ensures
        r == first_listing(catalog_view(catalog@), kernel@, version@, source@),
        r <= catalog.len(),
{
    let ghost cv = catalog_view(catalog@);
    let mut i: usize = 0;
    while i < catalog.len()
        invariant
            i <= catalog.len(),
            cv == catalog_view(catalog@),
            forall|j: int| 0 <= j < i ==> !((#[trigger] cv[j]).kernel == kernel@ && cv[j].version == version@
                && cv[j].source == source@),
        decreases catalog.len() - i,
    {
        assert(cv[i as int] == catalog@[i as int]@);
        if catalog[i].kernel == *kernel && catalog[i].version == *version && catalog[i].source == *source {
            proof {
                lemma_first_listing_at(cv, kernel@, version@, source@, i as int);
            }
            return i;
        }
        i += 1;
    }
    proof {
        lemma_first_listing_at(cv, kernel@, version@, source@, i as int);
    }
    i
}

/// The message shown when the kernel form is incomplete.
pub open spec fn install_fields_message() -> Seq<char> {
    "内核、版本、来源和 SHA-256 均为必填项"@
}

/// The kernels as the daemon last reported them, the kernel in use, the
/// routing mode chosen and the one in effect, and what the panel shows of
/// the operation in progress or the last error.
pub struct KernelPanel {
    pub kernels: Vec<KernelInfo>,
    pub active_kernel: String,
    pub running: bool,
    pub healthy: bool,
    pub routing_mode: ProxyMode,
    pub routing_configured: Option<String>,
    pub routing_active: ProxyMode,
    pub operation: Option<String>,
    pub error: Option<String>,
}

pub struct KernelPanelModel {
    pub kernels: Seq<KernelInfoModel>,
    pub active_kernel: Seq<char>,
    pub running: bool,
    pub healthy: bool,
    pub routing_mode: ProxyMode,
    pub routing_configured: Option<Seq<char>>,
    pub routing_active: ProxyMode,
    pub operation: Option<Seq<char>>,
    pub error: Option<Seq<char>>,
}

impl View for KernelPanel {
    type V = KernelPanelModel;

    open spec fn view(&self) -> KernelPanelModel {
        KernelPanelModel {
            kernels: kernels_view(self.kernels@),
            active_kernel: self.active_kernel@,
            running: self.running,
            healthy: self.healthy,
            routing_mode: self.routing_mode,
            routing_configured: opt_view(self.routing_configured),
            routing_active: self.routing_active,
            operation: opt_view(self.operation),
            error: opt_view(self.error),
        }
    }
}

/// A value the daemon reported, or "unknown" when it reported none.
pub open spec fn or_unknown(v: Option<Seq<char>>) -> Seq<char> {
    match v {
        Some(s) => s,
        None => "unknown"@,
    }
}

impl KernelPanel {
    /// Starts an install or upgrade from the kernel form. Returns the request
    /// to send, or none when a required field is blank, which the panel
    /// reports.
    pub fn install_kernel(&mut self, draft: &KernelArtifactDraft, catalog: &Vec<KernelCatalogOption>) -> (r: Option<InstallRequest>)
        ensures
            match install_request_of(*draft, catalog_view(catalog@), kernels_view(old(self).kernels@)) {
                None => r is None && final(self)@ == (KernelPanelModel { error: Some(install_fields_message()), ..old(self)@ }),
                Some(q) => r is Some && r->0@ == q && final(self)@ == (KernelPanelModel {
                    operation: Some(if q.upgrade { "正在升级内核…"@ } else { "正在安装内核…"@ }),
                    error: None,
                    ..old(self)@
                }),
            },
    {
        let kernel = trimmed(draft.kernel.as_str());
        let version = trimmed(draft.version.as_str());
        let source = trimmed(draft.source.as_str());
        let sha256 = trimmed(draft.sha256.as_str());
        if kernel.as_str().is_empty() || version.as_str().is_empty() || source.as_str().is_empty()
            || sha256.as_str().is_empty() {
            self.error = Some(String::from_str("内核、版本、来源和 SHA-256 均为必填项"));
            return None;
        }
        let i = find_listing(catalog, &kernel, &version, &source);
        let (platform, architecture) = if i < catalog.len() {
            assert(catalog_view(catalog@)[i as int] == catalog@[i as int]@);
            (catalog[i].platform.clone(), catalog[i].architecture.clone())
        } else {
            (String::new(), String::new())
        };
        let upgrade = is_kernel_installed(&self.kernels, kernel.as_str());
        let request = InstallRequest {
            upgrade,
            kernel,
            version,
            source,
            sha256,
            signature: trimmed(draft.signature.as_str()),
            public_key: trimmed(draft.public_key.as_str()),
            catalog_platform: platform,
            catalog_architecture: architecture,
        };
        self.operation = Some(String::from_str(if upgrade { "正在升级内核…" } else { "正在安装内核…" }));
        self.error = None;
        Some(request)
    }

    /// Takes the outcome of an install or upgrade of `kernel`: the version
    /// the daemon reported, or its error.
    pub fn finish_install(&mut self, kernel: &str, outcome: Result<Option<String>, String>)
        ensures
            match outcome {
                Ok(v) => final(self)@ == (KernelPanelModel {
                    kernels: after_install(old(self)@.kernels, kernel@, or_unknown(opt_view(v))),
                    operation: Some("已完成："@ + kernel@ + " "@ + or_unknown(opt_view(v))),
                    ..old(self)@
                }),
                Err(e) => final(self)@ == (KernelPanelModel { operation: None, error: Some(e@), ..old(self)@ }),
            },
    {
        match outcome {
            Ok(v) => {
                let version = match v {
                    Some(s) => s,
                    None => String::from_str("unknown"),
                };
                mark_kernel_installed(&mut self.kernels, kernel, version.as_str());
                self.operation = Some(String::from_str("已完成：").concat(kernel).concat(" ").concat(version.as_str()));
            },
            Err(e) => {
                self.operation = None;
                self.error = Some(e);
            },
        }
    }

    /// Starts installing `kernel` from the official catalog, or upgrading it
    /// when it is installed. Returns whether this is an upgrade.
    pub fn install_kernel_named(&mut self, kernel: &str) -> (upgrade: bool)
        ensures
            upgrade == kernel_installed(old(self)@.kernels, kernel@),
            final(self)@ == (KernelPanelModel {
                operation: Some(if upgrade { "正在从官方目录升级 "@ } else { "正在从官方目录安装 "@ } + kernel@ + "…"@),
                error: None,
                ..old(self)@
            }),
    {
        let upgrade = is_kernel_installed(&self.kernels, kernel);
        let head = if upgrade { "正在从官方目录升级 " } else { "正在从官方目录安装 " };
        self.operation = Some(String::from_str(head).concat(kernel).concat("…"));
        self.error = None;
        upgrade
    }

    /// Starts uninstalling `kernel`. Returns whether the request is to be
    /// sent: not when the kernel is not installed, which the panel reports.
    pub fn uninstall_kernel(&mut self, kernel: &str) -> (send: bool)
        ensures
            send == kernel_installed(old(self)@.kernels, kernel@),
            send ==> final(self)@ == (KernelPanelModel {
                operation: Some("正在卸载 "@ + kernel@ + "…"@),
                error: None,
                ..old(self)@
            }),
            !send ==> final(self)@ == (KernelPanelModel { error: Some("内核 "@ + kernel@ + " 当前未安装"@), ..old(self)@ }),
    {
        if !is_kernel_installed(&self.kernels, kernel) {
            self.error = Some(String::from_str("内核 ").concat(kernel).concat(" 当前未安装"));
            return false;
        }
        self.operation = Some(String::from_str("正在卸载 ").concat(kernel).concat("…"));
        self.error = None;
        true
    }

    /// Takes the outcome of uninstalling `kernel`.
    pub fn finish_uninstall(&mut self, kernel: &str, outcome: Result<(), String>)
        ensures
            match outcome {
                Ok(()) => final(self)@ == (KernelPanelModel {
                    kernels: after_uninstall(old(self)@.kernels, kernel@),
                    operation: Some("已卸载 "@ + kernel@),
                    ..old(self)@
                }),
                Err(e) => final(self)@ == (KernelPanelModel { operation: None, error: Some("卸载失败："@ + e@), ..old(self)@ }),
            },
    {
        match outcome {
            Ok(()) => {
                mark_kernel_uninstalled(&mut self.kernels, kernel);
                self.operation = Some(String::from_str("已卸载 ").concat(kernel));
            },
            Err(e) => {
                self.operation = None;
                self.error = Some(String::from_str("卸载失败：").concat(e.as_str()));
            },
        }
    }

    /// Chooses `kernel`. A kernel that is not installed is refused; while
    /// the proxy is stopped the kernel becomes the active one (and the
    /// caller starts the proxy); while it runs the caller hot-switches.
    pub fn select_kernel_and_start(&mut self, kernel: &str) -> (c: KernelChoice)
        ensures
            c == if !kernel_installed(old(self)@.kernels, kernel@) {
                KernelChoice::NotInstalled
            } else if !old(self).running {
                KernelChoice::Start
            } else {
                KernelChoice::HotSwitch
            },
            c == KernelChoice::NotInstalled ==> final(self)@ == (KernelPanelModel {
                error: Some("内核 "@ + kernel@ + " 尚未安装，不能切换"@),
                ..old(self)@
            }),
            c == KernelChoice::Start ==> final(self)@ == (KernelPanelModel { active_kernel: kernel@, error: None, ..old(self)@ }),
            c == KernelChoice::HotSwitch ==> final(self)@ == old(self)@,
    {
        let c = choose_kernel(&self.kernels, kernel, self.running);
        match c {
            KernelChoice::NotInstalled => {
                self.error = Some(String::from_str("内核 ").concat(kernel).concat(" 尚未安装，不能切换"));
            },
            KernelChoice::Start => {
                self.active_kernel = String::from_str(kernel);
                self.error = None;
            },
            KernelChoice::HotSwitch => {},
        }
        c
    }

    /// Starts hot-switching the running proxy to `kernel`. Returns whether
    /// the request is to be sent: not without an active node, which the
    /// panel reports.
    pub fn switch_kernel(&mut self, kernel: &str, has_node: bool) -> (send: bool)
        ensures
            send == has_node,
            send ==> final(self)@ == (KernelPanelModel {
                operation: Some("正在热切换到 "@ + kernel@ + "…"@),
                error: None,
                ..old(self)@
            }),
            !send ==> final(self)@ == (KernelPanelModel { error: Some("没有活动节点，无法热切换内核"@), ..old(self)@ }),
    {
        if !has_node {
            self.error = Some(String::from_str("没有活动节点，无法热切换内核"));
            return false;
        }
        self.operation = Some(String::from_str("正在热切换到 ").concat(kernel).concat("…"));
        self.error = None;
        true
    }

    /// Takes the outcome of hot-switching to `kernel`.
    pub fn finish_switch(&mut self, kernel: &str, outcome: Result<(), String>)
        ensures
            match outcome {
                Ok(()) => final(self)@ == (KernelPanelModel {
                    active_kernel: kernel@,
                    running: true,
                    healthy: true,
                    operation: Some("已切换到 "@ + kernel@),
                    ..old(self)@
                }),
                Err(e) => final(self)@ == (KernelPanelModel {
                    operation: None,
                    error: Some("内核热切换失败："@ + e@),
                    ..old(self)@
                }),
            },
    {
        match outcome {
            Ok(()) => {
                self.active_kernel = String::from_str(kernel);
                self.running = true;
                self.healthy = true;
                self.operation = Some(String::from_str("已切换到 ").concat(kernel));
            },
            Err(e) => {
                self.operation = None;
                self.error = Some(String::from_str("内核热切换失败：").concat(e.as_str()));
            },
        }
    }

    /// Takes a kernel-status reply: the kernels as reported, and healthy
    /// when some kernel runs and is healthy.
    pub fn apply_kernel_status(&mut self, kernels: Vec<KernelInfo>)
        ensures
            final(self)@ == (KernelPanelModel {
                kernels: kernels_view(kernels@),
                healthy: some_kernel_healthy(kernels_view(kernels@)),
                ..old(self)@
            }),
    {
        let healthy = any_kernel_healthy(&kernels);
        self.kernels = kernels;
        self.healthy = healthy;
    }
}

/// The daemon's answer to a request.
#[derive(Clone, Debug)]
pub enum DaemonReply {
    /// The request succeeded.
    Accepted,
    /// The daemon answered with this error.
    Refused(String),
    /// The request did not get through; the transport error.
    Unreachable(String),
}

/// What to do next while starting or stopping the proxy.
#[derive(Clone, Copy, PartialEq, Debug, Eq, Structural)]
pub enum PowerNext {
    /// Send `StartKernel` (with the node, routing plan and table) or
    /// `StopKernel`.
    SendKernel,
    /// Send `SetRoutingMode` with this mode.
    SendRoutingMode(ProxyMode),
    /// Send `StopKernel` to undo a start, whatever it answers.
    RollBack,
    /// Nothing more.
    Done,
}

/// The daemon method that starts or stops the kernel.
pub open spec fn power_method(start: bool) -> Seq<char> {
    if start { "StartKernel"@ } else { "StopKernel"@ }
}

pub enum DaemonReplyModel {
    Accepted,
    Refused(Seq<char>),
    Unreachable(Seq<char>),
}

impl View for DaemonReply {
    type V = DaemonReplyModel;

    open spec fn view(&self) -> DaemonReplyModel {
        match self {
            DaemonReply::Accepted => DaemonReplyModel::Accepted,
            DaemonReply::Refused(e) => DaemonReplyModel::Refused(e@),
            DaemonReply::Unreachable(e) => DaemonReplyModel::Unreachable(e@),
        }
    }
}

/// The connection error, if connecting failed.
pub open spec fn connect_error(connected: Result<(), String>) -> Option<Seq<char>> {
    match connected {
        Ok(()) => None,
        Err(e) => Some(e@),
    }
}

/// The panel shows that `message` stopped the operation.
pub open spec fn failed_with(p: KernelPanelModel, message: Seq<char>) -> KernelPanelModel {
    KernelPanelModel { operation: None, error: Some(message), ..p }
}

/// Starting or stopping, once connecting succeeded or failed with `error`.
pub open spec fn after_connect(p: KernelPanelModel, start: bool, has_node: bool, error: Option<Seq<char>>) -> (KernelPanelModel, PowerNext) {
    match error {
        Some(e) => (failed_with(p, "无法连接 daemon："@ + e), PowerNext::Done),
        None => if start && !has_node {
            (failed_with(p, "没有活动节点，无法启动内核"@), PowerNext::Done)
        } else {
            (p, PowerNext::SendKernel)
        },
    }
}

/// Starting or stopping, once the kernel request was answered.
pub open spec fn after_kernel_reply(p: KernelPanelModel, start: bool, mode: ProxyMode, reply: DaemonReplyModel) -> (KernelPanelModel, PowerNext) {
    match reply {
        DaemonReplyModel::Accepted => if start {
            (p, PowerNext::SendRoutingMode(mode))
        } else {
            (KernelPanelModel { running: false, routing_active: ProxyMode::Disabled, healthy: false, ..p }, PowerNext::Done)
        },
        DaemonReplyModel::Refused(e) => (failed_with(p, power_method(start) + " 失败："@ + e), PowerNext::Done),
        DaemonReplyModel::Unreachable(e) => (failed_with(p, power_method(start) + " 传输失败："@ + e), PowerNext::Done),
    }
}

/// Starting in `mode`, once the routing-mode request was answered.
pub open spec fn after_routing_reply(p: KernelPanelModel, mode: ProxyMode, reply: DaemonReplyModel) -> (KernelPanelModel, PowerNext) {
    match reply {
        DaemonReplyModel::Accepted => (KernelPanelModel { running: true, routing_active: mode, healthy: true, ..p }, PowerNext::Done),
        DaemonReplyModel::Refused(e) => (failed_with(p, "SetRoutingMode 失败："@ + e), PowerNext::RollBack),
        DaemonReplyModel::Unreachable(e) => (failed_with(p, "SetRoutingMode 传输失败："@ + e), PowerNext::RollBack),
    }
}

/// The panel after a whole start (`start`) or stop: connecting, the kernel
/// request and, for a start in `mode`, the routing-mode request, each step
/// taken only when the one before asked for it.
pub open spec fn power_outcome(
    p: KernelPanelModel,
    start: bool,
    has_node: bool,
    connect: Option<Seq<char>>,
    kernel: DaemonReplyModel,
    routing: DaemonReplyModel,
    mode: ProxyMode,
) -> KernelPanelModel {
    let (p1, n1) = after_connect(p, start, has_node, connect);
    if n1 != PowerNext::SendKernel {
        p1
    } else {
        let (p2, n2) = after_kernel_reply(p1, start, mode, kernel);
        if n2 != PowerNext::SendRoutingMode(mode) {
            p2
        } else {
            after_routing_reply(p2, mode, routing).0
        }
    }
}

/// The kernel flags (running, healthy, the routing mode in effect) change
/// only on the daemon's confirmation: a start once the daemon accepted both
/// the kernel start (which needs an active node) and the routing mode, a
/// stop once it accepted the kernel stop. Then they become running, healthy
/// and `mode` for a start, stopped, unhealthy and disabled for a stop, and
/// the error stays as it was. On any connection, transport or daemon error
/// the flags keep their values, an error is shown and no operation is in
/// progress. Nothing but the flags, the error and the operation changes.
pub proof fn law_power_flags_change_only_when_confirmed(
    p: KernelPanelModel,
    start: bool,
    has_node: bool,
    connect: Option<Seq<char>>,
    kernel: DaemonReplyModel,
    routing: DaemonReplyModel,
    mode: ProxyMode,
)
    ensures
        ({
            let q = power_outcome(p, start, has_node, connect, kernel, routing, mode);
            let confirmed = connect is None && (!start || has_node) && kernel is Accepted && (!start || routing is Accepted);
            &&& confirmed && start ==> q == (KernelPanelModel { running: true, healthy: true, routing_active: mode, ..p })
            &&& confirmed && !start ==> q == (KernelPanelModel {
                running: false,
                healthy: false,
                routing_active: ProxyMode::Disabled,
                ..p
            })
            &&& !confirmed ==> q.error is Some && q == (KernelPanelModel { operation: None, error: q.error, ..p })
        }),
{
}

impl KernelPanel {
    /// Whether the routing mode may be changed now: only while the kernel is
    /// stopped.
    pub fn set_routing_mode(&mut self, mode: ProxyMode) -> (changed: bool)
        ensures
            changed == !old(self).running,
            changed ==> final(self)@ == (KernelPanelModel { routing_mode: mode, ..old(self)@ }),
            !changed ==> final(self)@ == old(self)@,
    {
        if self.running {
            return false;
        }
        self.routing_mode = mode;
        true
    }

    /// Starting (`start`) or stopping the proxy, once the connection to the
    /// daemon is made or has failed. Starting needs an active node.
    pub fn power_connected(&mut self, start: bool, has_node: bool, connected: Result<(), String>) -> (next: PowerNext)
        ensures
            (final(self)@, next) == after_connect(old(self)@, start, has_node, connect_error(connected)),
    {
        match connected {
            Err(e) => {
                self.operation = None;
                self.error = Some(String::from_str("无法连接 daemon：").concat(e.as_str()));
                PowerNext::Done
            },
            Ok(()) => {
                if start && !has_node {
                    self.operation = None;
                    self.error = Some(String::from_str("没有活动节点，无法启动内核"));
                    PowerNext::Done
                } else {
                    PowerNext::SendKernel
                }
            },
        }
    }

    /// Takes the reply to `StartKernel` or `StopKernel`. A start goes on to
    /// set the routing mode `mode`, chosen when the start began; a stop is
    /// complete at once.
    pub fn power_kernel_replied(&mut self, start: bool, mode: ProxyMode, reply: DaemonReply) -> (next: PowerNext)
        ensures
            (final(self)@, next) == after_kernel_reply(old(self)@, start, mode, reply@),
    {
        let method = if start { "StartKernel" } else { "StopKernel" };
        match reply {
            DaemonReply::Accepted => {
                if start {
                    PowerNext::SendRoutingMode(mode)
                } else {
                    self.running = false;
                    self.routing_active = ProxyMode::Disabled;
                    self.healthy = false;
                    PowerNext::Done
                }
            },
            DaemonReply::Refused(e) => {
                self.operation = None;
                self.error = Some(String::from_str(method).concat(" 失败：").concat(e.as_str()));
                PowerNext::Done
            },
            DaemonReply::Unreachable(e) => {
                self.operation = None;
                self.error = Some(String::from_str(method).concat(" 传输失败：").concat(e.as_str()));
                PowerNext::Done
            },
        }
    }

    /// Takes the reply to `SetRoutingMode` after a start in mode `mode`. The
    /// proxy counts as running only when this succeeds; otherwise the start
    /// is rolled back.
    pub fn power_routing_replied(&mut self, mode: ProxyMode, reply: DaemonReply) -> (next: PowerNext)
        ensures
            (final(self)@, next) == after_routing_reply(old(self)@, mode, reply@),
    {
        match reply {
            DaemonReply::Accepted => {
                self.running = true;
                self.routing_active = mode;
                self.healthy = true;
                PowerNext::Done
            },
            DaemonReply::Refused(e) => {
                self.operation = None;
                self.error = Some(String::from_str("SetRoutingMode 失败：").concat(e.as_str()));
                PowerNext::RollBack
            },
            DaemonReply::Unreachable(e) => {
                self.operation = None;
                self.error = Some(String::from_str("SetRoutingMode 传输失败：").concat(e.as_str()));
                PowerNext::RollBack
            },
        }
    }

    /// Starts switching the running proxy to another routing mode, named
    /// `mode_name` as the daemon names it. Returns whether the request is to
    /// be sent: not without an active node, which the panel reports.
    pub fn switch_routing_mode(&mut self, mode_name: &str, has_node: bool) -> (send: bool)
        ensures
            send == has_node,
            send ==> final(self)@ == (KernelPanelModel {
                operation: Some("正在切换到 "@ + mode_name@ + "…"@),
                error: None,
                ..old(self)@
            }),
            !send ==> final(self)@ == (KernelPanelModel { error: Some("没有活动节点，无法切换路由模式"@), ..old(self)@ }),
    {
        if !has_node {
            self.error = Some(String::from_str("没有活动节点，无法切换路由模式"));
            return false;
        }
        self.operation = Some(String::from_str("正在切换到 ").concat(mode_name).concat("…"));
        self.error = None;
        true
    }

    /// Takes the outcome of switching to routing mode `mode`, named
    /// `mode_name`.
    pub fn finish_mode_switch(&mut self, mode: ProxyMode, mode_name: &str, outcome: Result<(), String>)
        ensures
            match outcome {
                Ok(()) => final(self)@ == (KernelPanelModel {
                    routing_mode: mode,
                    routing_active: mode,
                    running: true,
                    healthy: true,
                    operation: Some("已切换到 "@ + mode_name@),
                    ..old(self)@
                }),
                Err(e) => final(self)@ == (KernelPanelModel {
                    operation: None,
                    error: Some("路由模式切换失败："@ + e@),
                    ..old(self)@
                }),
            },
    {
        match outcome {
            Ok(()) => {
                self.routing_mode = mode;
                self.routing_active = mode;
                self.running = true;
                self.healthy = true;
                self.operation = Some(String::from_str("已切换到 ").concat(mode_name));
            },
            Err(e) => {
                self.operation = None;
                self.error = Some(String::from_str("路由模式切换失败：").concat(e.as_str()));
            },
        }
    }

    /// Takes a routing-status reply: the configured mode's name, if any, the
    /// active mode and whether the kernel is healthy. The kernel runs when
    /// it is healthy and some mode is active.
    pub fn apply_routing_status(&mut self, configured: Option<String>, active: ProxyMode, healthy: bool)
        ensures
            final(self)@ == (KernelPanelModel {
                routing_configured: opt_view(configured),
                routing_active: active,
                healthy: healthy,
                running: healthy && active != ProxyMode::Disabled,
                ..old(self)@
            }),
    {
        self.routing_configured = configured;
        self.routing_active = active;
        self.healthy = healthy;
        self.running = kernel_running_from_status(healthy, active);
    }

    /// Takes a status notification: whether the kernel runs.
    pub fn apply_running(&mut self, running: bool)
        ensures
            final(self)@ == (KernelPanelModel { running: running, ..old(self)@ }),
    {
        self.running = running;
    }

    /// The daemon could not be reached: what the kernel and the routing do
    /// is unknown, so the panel shows the kernel stopped and unhealthy and
    /// routing off, never a running state it cannot confirm.
    pub fn daemon_lost(&mut self)
        ensures
            final(self)@ == (KernelPanelModel {
                running: false,
                healthy: false,
                routing_active: ProxyMode::Disabled,
                ..old(self)@
            }),
    {
        self.running = false;
        self.healthy = false;
        self.routing_active = ProxyMode::Disabled;
    }

    /// Takes a kernel-status notification: the kernels as reported.
    pub fn replace_kernels(&mut self, kernels: Vec<KernelInfo>)
        ensures
            final(self)@ == (KernelPanelModel { kernels: kernels_view(kernels@), ..old(self)@ }),
    {
        self.kernels = kernels;
    }
}

/// The kernel catalog as last verified, where it comes from, and the
/// status line shown beside it.
pub struct KernelCatalog {
    pub source: String,
    pub trusted_key: String,
    pub status: Option<String>,
    pub entries: Vec<KernelCatalogOption>,
}

pub struct KernelCatalogModel {
    pub source: Seq<char>,
    pub trusted_key: Seq<char>,
    pub status: Option<Seq<char>>,
    pub entries: Seq<KernelCatalogOptionModel>,
}

impl View for KernelCatalog {
    type V = KernelCatalogModel;

    open spec fn view(&self) -> KernelCatalogModel {
        KernelCatalogModel {
            source: self.source@,
            trusted_key: self.trusted_key@,
            status: opt_view(self.status),
            entries: catalog_view(self.entries@),
        }
    }
}

impl KernelCatalog {
    /// Starts refreshing the catalog. Returns the trimmed source and trusted
    /// key to send, or none when either is blank, which the status reports.
    pub fn refresh_kernel_catalog(&mut self) -> (r: Option<(String, String)>)
        ensures
            ({
                let s = trim(old(self).source@);
                let k = trim(old(self).trusted_key@);
                if s.len() == 0 || k.len() == 0 {
                    r is None && final(self)@ == (KernelCatalogModel {
                        status: Some("清单来源和信任根公钥均为必填项"@),
                        ..old(self)@
                    })
                } else {
                    r is Some && (r->0).0@ == s && (r->0).1@ == k && final(self)@ == (KernelCatalogModel {
                        status: Some("正在验证内核发布清单…"@),
                        ..old(self)@
                    })
                }
            }),
    {
        let source = trimmed(self.source.as_str());
        let key = trimmed(self.trusted_key.as_str());
        if source.as_str().is_empty() || key.as_str().is_empty() {
            self.status = Some(String::from_str("清单来源和信任根公钥均为必填项"));
            return None;
        }
        self.status = Some(String::from_str("正在验证内核发布清单…"));
        Some((source, key))
    }

    /// Takes the outcome of a refresh: the verified entries with the
    /// catalog's digest, if reported, or the error.
    pub fn finish_refresh(&mut self, outcome: Result<(Vec<KernelCatalogOption>, Option<String>), String>)
        ensures
            match outcome {
                Ok((entries, digest)) => final(self)@ == (KernelCatalogModel {
                    entries: catalog_view(entries@),
                    status: Some("清单已验证 · "@ + or_unknown(opt_view(digest))),
                    ..old(self)@
                }),
                Err(e) => final(self)@ == (KernelCatalogModel {
                    entries: Seq::empty(),
                    status: Some("清单验证失败："@ + e@),
                    ..old(self)@
                }),
            },
    {
        match outcome {
            Ok((entries, digest)) => {
                let d = match digest {
                    Some(s) => s,
                    None => String::from_str("unknown"),
                };
                self.entries = entries;
                self.status = Some(String::from_str("清单已验证 · ").concat(d.as_str()));
            },
            Err(e) => {
                self.status = Some(String::from_str("清单验证失败：").concat(e.as_str()));
                self.entries = Vec::new();
                assert(catalog_view(self.entries@) =~= Seq::<KernelCatalogOptionModel>::empty());
            },
        }
    }
}

} // verus!
