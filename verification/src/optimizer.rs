//! TCP tuning profiles: which tuning steps each profile performs, which
//! labels a run reports, and the catalogue of available optimizations.
//!
//! The steps themselves run outside the library (they call `netsh` and edit
//! the registry); the library decides what to run and how to read the
//! outcomes.

use vstd::prelude::*;
use vstd::string::StringExecFns;

use crate::util::{
    colon_field_of, extracted_value, find_char, find_from, find_sub_from, find_substring,
    key_clean, key_matches_line, keys_view, lemma_find_from_shift, line_value, starts_with_ci,
    str_has, str_has_ci, string_contains, string_contains_ci, trim_str, trim_view,
};

verus! {

/// Current TCP stack settings, as reported by the system.
#[derive(Debug)]
pub struct TcpSettings {
    /// Receive window auto-tuning level.
    pub autotuning: String,
    /// Receive-side scaling state.
    pub rss: String,
    /// Receive segment coalescing state.
    pub rsc: String,
    /// Explicit congestion notification capability.
    pub ecn: String,
    /// RFC 1323 timestamps state.
    pub timestamps: String,
    /// Chimney offload state.
    pub chimney: String,
    /// Add-on congestion control provider.
    pub congestion_provider: String,
    /// TCP Fast Open state.
    pub fast_open: String,
    /// HyStart state.
    pub hystart: String,
    /// Proportional rate reduction state.
    pub prr: String,
    /// Pacing profile.
    pub pacing: String,
    /// Initial retransmission timeout.
    pub initial_rto: String,
    /// RACK state.
    pub rack: String,
}

impl Clone for TcpSettings {
    fn clone(&self) -> (r: Self)
        ensures
            r == *self,
    {
        TcpSettings {
            autotuning: self.autotuning.clone(),
            rss: self.rss.clone(),
            rsc: self.rsc.clone(),
            ecn: self.ecn.clone(),
            timestamps: self.timestamps.clone(),
            chimney: self.chimney.clone(),
            congestion_provider: self.congestion_provider.clone(),
            fast_open: self.fast_open.clone(),
            hystart: self.hystart.clone(),
            prr: self.prr.clone(),
            pacing: self.pacing.clone(),
            initial_rto: self.initial_rto.clone(),
            rack: self.rack.clone(),
        }
    }
}

/// How aggressively to tune the TCP stack.
#[derive(Debug, Clone, Copy, PartialEq, Eq, Structural)]
pub enum OptimizationProfile {
    /// Only settings that are safe everywhere.
    Conservative,
    /// Adds ECN, timestamps and moderate registry tweaks.
    Balanced,
    /// Everything, including fast open and a reduced initial timeout.
    Aggressive,
}

impl OptimizationProfile {
    /// The profile's name, as the plan lookup expects it.
    pub fn name(&self) -> (r: String)
        ensures
            r@ == match *self {
                OptimizationProfile::Conservative => "Conservative"@,
                OptimizationProfile::Balanced => "Balanced"@,
                OptimizationProfile::Aggressive => "Aggressive"@,
            },
    {
        match self {
            OptimizationProfile::Conservative => String::from_str("Conservative"),
            OptimizationProfile::Balanced => String::from_str("Balanced"),
            OptimizationProfile::Aggressive => String::from_str("Aggressive"),
        }
    }
}

/// One entry of the optimization catalogue.
#[derive(Debug)]
pub struct OptimizationInfo {
    /// Short identifier.
    pub id: String,
    /// Display name.
    pub name: String,
    /// What the optimization does.
    pub description: String,
    /// Which group it belongs to.
    pub category: String,
    /// How risky applying it is.
    pub risk_level: String,
    /// Whether it is currently applied.
    pub applied: bool,
}

impl Clone for OptimizationInfo {
    fn clone(&self) -> (r: Self)
        ensures
            r == *self,
    {
        OptimizationInfo {
            id: self.id.clone(),
            name: self.name.clone(),
            description: self.description.clone(),
            category: self.category.clone(),
            risk_level: self.risk_level.clone(),
            applied: self.applied,
        }
    }
}

/// One outside action a tuning run performs.
#[derive(Debug)]
pub enum TuningAction {
    /// Run `netsh` with these arguments.
    Netsh(String),
    /// Set a DWORD under the TCP parameters registry key.
    RegistrySet(String, u32),
    /// Delete a value under the TCP parameters registry key.
    RegistryDelete(String),
}

impl Clone for TuningAction {
    fn clone(&self) -> (r: Self)
        ensures
            r == *self,
    {
        match self {
            TuningAction::Netsh(c) => TuningAction::Netsh(c.clone()),
            TuningAction::RegistrySet(n, v) => TuningAction::RegistrySet(n.clone(), *v),
            TuningAction::RegistryDelete(n) => TuningAction::RegistryDelete(n.clone()),
        }
    }
}

/// One step of a tuning plan: the action, the label reported for it, whether
/// a failure aborts the whole run, and whether the label is reported only
/// when the step succeeded.
#[derive(Debug)]
pub struct TuningStep {
    /// What to do.
    pub action: TuningAction,
    /// What to report when the step counts as applied.
    pub label: String,
    /// A failure of this step fails the whole run.
    pub required: bool,
    /// Report the label only when the step succeeded.
    pub label_on_success: bool,
}

impl Clone for TuningStep {
    fn clone(&self) -> (r: Self)
        ensures
            r == *self,
    {
        TuningStep {
            action: self.action.clone(),
            label: self.label.clone(),
            required: self.required,
            label_on_success: self.label_on_success,
        }
    }
}

/// A mandatory `netsh` step whose label is always reported on a completed run.
pub open spec fn is_netsh_step(s: TuningStep, cmd: Seq<char>, label: Seq<char>) -> bool {
    &&& s.action matches TuningAction::Netsh(c) && c@ == cmd
    &&& s.label@ == label
    &&& s.required
    &&& !s.label_on_success
}

/// A best-effort `netsh` step whose label is reported regardless.
pub open spec fn is_netsh_opt_step(s: TuningStep, cmd: Seq<char>, label: Seq<char>) -> bool {
    &&& s.action matches TuningAction::Netsh(c) && c@ == cmd
    &&& s.label@ == label
    &&& !s.required
    &&& !s.label_on_success
}

/// A best-effort registry write whose label is reported only on success.
pub open spec fn is_reg_set_step(s: TuningStep, name: Seq<char>, value: u32, label: Seq<char>) -> bool {
    &&& s.action matches TuningAction::RegistrySet(n, v) && n@ == name && v == value
    &&& s.label@ == label
    &&& !s.required
    &&& s.label_on_success
}

/// A best-effort registry delete whose label is always reported.
pub open spec fn is_reg_del_step(s: TuningStep, name: Seq<char>, label: Seq<char>) -> bool {
    &&& s.action matches TuningAction::RegistryDelete(n) && n@ == name
    &&& s.label@ == label
    &&& !s.required
    &&& !s.label_on_success
}

fn netsh_step(cmd: &str, label: &str) -> (r: TuningStep)
    ensures
        is_netsh_step(r, cmd@, label@),
{
    TuningStep {
        action: TuningAction::Netsh(String::from_str(cmd)),
        label: String::from_str(label),
        required: true,
        label_on_success: false,
    }
}

fn netsh_opt_step(cmd: &str, label: &str) -> (r: TuningStep)
    ensures
        is_netsh_opt_step(r, cmd@, label@),
{
    TuningStep {
        action: TuningAction::Netsh(String::from_str(cmd)),
        label: String::from_str(label),
        required: false,
        label_on_success: false,
    }
}

fn reg_set_step(name: &str, value: u32, label: &str) -> (r: TuningStep)
    ensures
        is_reg_set_step(r, name@, value, label@),
{
    TuningStep {
        action: TuningAction::RegistrySet(String::from_str(name), value),
        label: String::from_str(label),
        required: false,
        label_on_success: true,
    }
}

fn reg_del_step(name: &str, label: &str) -> (r: TuningStep)
    ensures
        is_reg_del_step(r, name@, label@),
{
    TuningStep {
        action: TuningAction::RegistryDelete(String::from_str(name)),
        label: String::from_str(label),
        required: false,
        label_on_success: false,
    }
}

/// The steps of the conservative profile: only the safe `netsh` switches.
pub open spec fn is_conservative_plan(v: Seq<TuningStep>) -> bool {
    &&& v.len() == 3
    &&& is_netsh_step(v[0], "int tcp set global rss=enabled"@, "RSS enabled"@)
    &&& is_netsh_step(v[1], "int tcp set global rsc=enabled"@, "RSC enabled"@)
    &&& is_netsh_step(v[2], "int tcp set global autotuninglevel=normal"@, "Autotuning normal"@)
}

/// The steps of the balanced profile: the conservative ones, ECN and
/// timestamps, and two moderate registry tweaks.
pub open spec fn is_balanced_plan(v: Seq<TuningStep>) -> bool {
    &&& v.len() == 7
    &&& is_netsh_step(v[0], "int tcp set global rss=enabled"@, "RSS enabled"@)
    &&& is_netsh_step(v[1], "int tcp set global rsc=enabled"@, "RSC enabled"@)
    &&& is_netsh_step(v[2], "int tcp set global autotuninglevel=normal"@, "Autotuning normal"@)
    &&& is_netsh_step(v[3], "int tcp set global ecncapability=enabled"@, "ECN enabled"@)
    &&& is_netsh_step(v[4], "int tcp set global timestamps=enabled"@, "Timestamps enabled"@)
    &&& is_reg_set_step(v[5], "EnableHyStart"@, 1, "HyStart++ enabled"@)
    &&& is_reg_set_step(v[6], "EnablePrr"@, 1, "PRR enabled"@)
}

/// The steps of the aggressive profile: everything the balanced profile does,
/// plus chimney off, fast open, pacing and a reduced initial timeout.
pub open spec fn is_aggressive_plan(v: Seq<TuningStep>) -> bool {
    &&& v.len() == 11
    &&& is_netsh_step(v[0], "int tcp set global rss=enabled"@, "RSS enabled"@)
    &&& is_netsh_step(v[1], "int tcp set global rsc=enabled"@, "RSC enabled"@)
    &&& is_netsh_step(v[2], "int tcp set global autotuninglevel=normal"@, "Autotuning normal"@)
    &&& is_netsh_step(v[3], "int tcp set global ecncapability=enabled"@, "ECN enabled"@)
    &&& is_netsh_step(v[4], "int tcp set global timestamps=enabled"@, "Timestamps enabled"@)
    &&& is_netsh_opt_step(v[5], "int tcp set global chimney=disabled"@, "Chimney disabled"@)
    &&& is_reg_set_step(v[6], "EnableHyStart"@, 1, "HyStart++ enabled"@)
    &&& is_reg_set_step(v[7], "EnablePrr"@, 1, "PRR enabled"@)
    &&& is_reg_set_step(v[8], "EnableTFO"@, 1, "TCP Fast Open enabled"@)
    &&& is_reg_set_step(v[9], "EnableWsd"@, 0, "TCP Pacing enabled"@)
    &&& is_reg_set_step(v[10], "TcpInitialRto"@, 1000, "Initial RTO reduced"@)
}

/// A best-effort `netsh` step whose label is reported only on success, as
/// the reset run uses.
pub open spec fn is_reset_netsh_step(s: TuningStep, cmd: Seq<char>, label: Seq<char>) -> bool {
    &&& s.action matches TuningAction::Netsh(c) && c@ == cmd
    &&& s.label@ == label
    &&& !s.required
    &&& s.label_on_success
}

/// The plan a profile performs. An unknown profile name is rejected with the
/// original error text.
pub fn apply_profile_internal(profile: &str) -> (r: Result<Vec<TuningStep>, String>)
    ensures
        profile@ == "Conservative"@ ==> (r matches Ok(v) && is_conservative_plan(v@)),
        profile@ == "Balanced"@ ==> (r matches Ok(v) && is_balanced_plan(v@)),
        profile@ == "Aggressive"@ ==> (r matches Ok(v) && is_aggressive_plan(v@)),
        (profile@ != "Conservative"@ && profile@ != "Balanced"@ && profile@ != "Aggressive"@)
            ==> (r matches Err(m) && m@ == "Perfil desconocido: "@ + profile@),
{
    proof {
        reveal_strlit("Conservative");
        reveal_strlit("Balanced");
        reveal_strlit("Aggressive");
        assert("Conservative"@.len() == 12);
        assert("Balanced"@.len() == 8);
        assert("Aggressive"@.len() == 10);
        assert("Conservative"@ != "Balanced"@);
        assert("Conservative"@ != "Aggressive"@);
        assert("Balanced"@ != "Aggressive"@);
    }
    let p = String::from_str(profile);
    if p == String::from_str("Conservative") {
        let mut v: Vec<TuningStep> = Vec::new();
        v.push(netsh_step("int tcp set global rss=enabled", "RSS enabled"));
        v.push(netsh_step("int tcp set global rsc=enabled", "RSC enabled"));
        v.push(netsh_step("int tcp set global autotuninglevel=normal", "Autotuning normal"));
        Ok(v)
    } else if p == String::from_str("Balanced") {
        let mut v: Vec<TuningStep> = Vec::new();
        v.push(netsh_step("int tcp set global rss=enabled", "RSS enabled"));
        v.push(netsh_step("int tcp set global rsc=enabled", "RSC enabled"));
        v.push(netsh_step("int tcp set global autotuninglevel=normal", "Autotuning normal"));
        v.push(netsh_step("int tcp set global ecncapability=enabled", "ECN enabled"));
        v.push(netsh_step("int tcp set global timestamps=enabled", "Timestamps enabled"));
        v.push(reg_set_step("EnableHyStart", 1, "HyStart++ enabled"));
        v.push(reg_set_step("EnablePrr", 1, "PRR enabled"));
        Ok(v)
    } else if p == String::from_str("Aggressive") {
        let mut v: Vec<TuningStep> = Vec::new();
        v.push(netsh_step("int tcp set global rss=enabled", "RSS enabled"));
        v.push(netsh_step("int tcp set global rsc=enabled", "RSC enabled"));
        v.push(netsh_step("int tcp set global autotuninglevel=normal", "Autotuning normal"));
        v.push(netsh_step("int tcp set global ecncapability=enabled", "ECN enabled"));
        v.push(netsh_step("int tcp set global timestamps=enabled", "Timestamps enabled"));
        v.push(netsh_opt_step("int tcp set global chimney=disabled", "Chimney disabled"));
        v.push(reg_set_step("EnableHyStart", 1, "HyStart++ enabled"));
        v.push(reg_set_step("EnablePrr", 1, "PRR enabled"));
        v.push(reg_set_step("EnableTFO", 1, "TCP Fast Open enabled"));
        v.push(reg_set_step("EnableWsd", 0, "TCP Pacing enabled"));
        v.push(reg_set_step("TcpInitialRto", 1000, "Initial RTO reduced"));
        Ok(v)
    } else {
        let mut m = String::from_str("Perfil desconocido: ");
        m.append(profile);
        Err(m)
    }
}

/// The plan that restores the defaults; it never fails as a whole.
pub fn reset_to_defaults_internal() -> (r: Vec<TuningStep>)
    ensures
        r@.len() == 8,
        is_reset_netsh_step(r@[0], "int tcp set global autotuninglevel=normal"@, "Autotuning reset"@),
        is_reset_netsh_step(r@[1], "int tcp set global ecncapability=default"@, "ECN reset"@),
        is_reset_netsh_step(r@[2], "int tcp set global timestamps=disabled"@, "Timestamps reset"@),
        is_reg_del_step(r@[3], "EnableHyStart"@, "HyStart++ removed"@),
        is_reg_del_step(r@[4], "EnablePrr"@, "PRR removed"@),
        is_reg_del_step(r@[5], "EnableTFO"@, "TCP Fast Open removed"@),
        is_reg_del_step(r@[6], "EnableWsd"@, "TCP Pacing removed"@),
        is_reg_del_step(r@[7], "TcpInitialRto"@, "Initial RTO reset"@),
{
    let mut v: Vec<TuningStep> = Vec::new();
    v.push(reset_netsh_step("int tcp set global autotuninglevel=normal", "Autotuning reset"));
    v.push(reset_netsh_step("int tcp set global ecncapability=default", "ECN reset"));
    v.push(reset_netsh_step("int tcp set global timestamps=disabled", "Timestamps reset"));
    v.push(reg_del_step("EnableHyStart", "HyStart++ removed"));
    v.push(reg_del_step("EnablePrr", "PRR removed"));
    v.push(reg_del_step("EnableTFO", "TCP Fast Open removed"));
    v.push(reg_del_step("EnableWsd", "TCP Pacing removed"));
    v.push(reg_del_step("TcpInitialRto", "Initial RTO reset"));
    v
}

fn reset_netsh_step(cmd: &str, label: &str) -> (r: TuningStep)
    ensures
        is_reset_netsh_step(r, cmd@, label@),
{
    TuningStep {
        action: TuningAction::Netsh(String::from_str(cmd)),
        label: String::from_str(label),
        required: false,
        label_on_success: true,
    }
}

/// The first step whose failure aborts the run: the first required step
/// among `0..n` whose outcome is false.
pub open spec fn first_blocker(steps: Seq<TuningStep>, ok: Seq<bool>, n: int) -> Option<int>
    decreases n,
{
    if n <= 0 {
        None
    } else {
        match first_blocker(steps, ok, n - 1) {
            Some(i) => Some(i),
            None => if steps[n - 1].required && !ok[n - 1] {
                Some(n - 1)
            } else {
                None
            },
        }
    }
}

/// The labels a completed run reports: each step's label, except that a
/// label reported only on success is skipped where the step failed.
pub open spec fn labels_upto(steps: Seq<TuningStep>, ok: Seq<bool>, n: int) -> Seq<String>
    decreases n,
{
    if n <= 0 {
        Seq::empty()
    } else {
        labels_upto(steps, ok, n - 1) + (if !steps[n - 1].label_on_success || ok[n - 1] {
            seq![steps[n - 1].label]
        } else {
            Seq::empty()
        })
    }
}

/// The error reported for a failed required step.
pub open spec fn step_error(s: TuningStep) -> Seq<char> {
    match s.action {
        TuningAction::Netsh(c) => "netsh "@ + c@ + " failed"@,
        TuningAction::RegistrySet(n, _) => "Failed to set registry "@ + n@,
        TuningAction::RegistryDelete(n) => "Failed to set registry "@ + n@,
    }
}

/// Reads a run's outcomes back into the report the caller sees: the error of
/// the first failed required step, or the labels of what was applied.
pub fn applied_labels(steps: &Vec<TuningStep>, ok: &Vec<bool>) -> (r: Result<Vec<String>, String>)
    requires
        ok@.len() == steps@.len(),
    ensures
        match first_blocker(steps@, ok@, steps@.len() as int) {
            Some(i) => r matches Err(m) && m@ == step_error(steps@[i]),
            None => r matches Ok(v) && v@ == labels_upto(steps@, ok@, steps@.len() as int),
        },
{
    let n = steps.len();
    let mut labels: Vec<String> = Vec::new();
    for k in 0..n
        invariant
            n == steps@.len(),
            ok@.len() == n,
            first_blocker(steps@, ok@, k as int) is None,
            labels@ == labels_upto(steps@, ok@, k as int),
    {
        if steps[k].required && !ok[k] {
            let m = match &steps[k].action {
                TuningAction::Netsh(c) => {
                    let mut m = String::from_str("netsh ");
                    m.append(c.as_str());
                    m.append(" failed");
                    m
                },
                TuningAction::RegistrySet(nm, _) => {
                    let mut m = String::from_str("Failed to set registry ");
                    m.append(nm.as_str());
                    m
                },
                TuningAction::RegistryDelete(nm) => {
                    let mut m = String::from_str("Failed to set registry ");
                    m.append(nm.as_str());
                    m
                },
            };
            proof {
                lemma_first_blocker_found(steps@, ok@, k as int, steps@.len() as int);
            }
            return Err(m);
        }
        if !steps[k].label_on_success || ok[k] {
            labels.push(steps[k].label.clone());
            proof {
                assert(labels@ =~= labels_upto(steps@, ok@, k as int) + seq![steps@[k as int].label]);
            }
        }
    }
    Ok(labels)
}

proof fn lemma_first_blocker_found(steps: Seq<TuningStep>, ok: Seq<bool>, k: int, n: int)
    requires
        0 <= k < n,
        first_blocker(steps, ok, k) is None,
        steps[k].required && !ok[k],
    ensures
        first_blocker(steps, ok, n) == Some(k),
    decreases n,
{
    if n > k + 1 {
        lemma_first_blocker_found(steps, ok, k, n - 1);
    }
}

/// An entry of the optimization catalogue has these contents.
pub open spec fn is_info_row(
    o: OptimizationInfo,
    id: Seq<char>,
    name: Seq<char>,
    description: Seq<char>,
    category: Seq<char>,
    risk: Seq<char>,
    applied: bool,
) -> bool {
    &&& o.id@ == id
    &&& o.name@ == name
    &&& o.description@ == description
    &&& o.category@ == category
    &&& o.risk_level@ == risk
    &&& o.applied == applied
}

fn info_row(id: &str, name: &str, description: &str, category: &str, risk: &str, applied: bool) -> (
    r: OptimizationInfo)
    ensures
        is_info_row(r, id@, name@, description@, category@, risk@, applied),
{
    OptimizationInfo {
        id: String::from_str(id),
        name: String::from_str(name),
        description: String::from_str(description),
        category: String::from_str(category),
        risk_level: String::from_str(risk),
        applied,
    }
}

/// A reported setting counts as switched on when it mentions `enabled`,
/// whatever the letter case.
pub open spec fn setting_enabled(s: Seq<char>) -> bool {
    str_has_ci(s, "enabled"@)
}

/// The catalogue of available optimizations and whether each is applied,
/// judged from the current TCP settings and the registry tweaks:
/// `hystart`, `prr` and `tfo` say whether their registry value exists,
/// `wsd_value` and `initial_rto` carry the stored DWORDs where present.
pub fn get_available_optimizations(
    current: &TcpSettings,
    hystart: bool,
    prr: bool,
    tfo: bool,
    wsd_value: Option<u32>,
    initial_rto: Option<u32>,
) -> (r: Vec<OptimizationInfo>)
    ensures
        r@.len() == 9,
        is_info_row(
            r@[0],
            "rss"@,
            "Receive-Side Scaling (RSS)"@,
            "Distribuye el procesamiento de paquetes entre múltiples CPUs"@,
            "Network"@,
            "low"@,
            setting_enabled(current.rss@),
        ),
        is_info_row(
            r@[1],
            "rsc"@,
            "Receive Segment Coalescing (RSC)"@,
            "Combina segmentos TCP para reducir overhead de CPU"@,
            "Network"@,
            "low"@,
            setting_enabled(current.rsc@),
        ),
        is_info_row(
            r@[2],
            "ecn"@,
            "Explicit Congestion Notification (ECN)"@,
            "Notificación de congestión sin pérdida de paquetes"@,
            "TCP"@,
            "low"@,
            setting_enabled(current.ecn@),
        ),
        is_info_row(
            r@[3],
            "timestamps"@,
            "TCP Timestamps"@,
            "Mejora la medición de RTT y protección PAWS"@,
            "TCP"@,
            "low"@,
            setting_enabled(current.timestamps@),
        ),
        is_info_row(
            r@[4],
            "hystart"@,
            "HyStart++"@,
            "Slow-start mejorado que evita bufferbloat"@,
            "Congestion"@,
            "medium"@,
            hystart,
        ),
        is_info_row(
            r@[5],
            "prr"@,
            "Proportional Rate Reduction (PRR)"@,
            "Recuperación suave de pérdidas de paquetes"@,
            "Congestion"@,
            "medium"@,
            prr,
        ),
        is_info_row(
            r@[6],
            "tfo"@,
            "TCP Fast Open (TFO)"@,
            "Envía datos en SYN, ahorra 1 RTT"@,
            "TCP"@,
            "medium"@,
            tfo,
        ),
        is_info_row(
            r@[7],
            "pacing"@,
            "TCP Pacing"@,
            "Envío suave de paquetes, reduce bufferbloat"@,
            "Congestion"@,
            "medium"@,
            wsd_value == Some(0u32),
        ),
        is_info_row(
            r@[8],
            "initial_rto"@,
            "Initial RTO Reducido"@,
            "Timeout inicial reducido de 3s a 1s"@,
            "TCP"@,
            "medium"@,
            match initial_rto {
                Some(v) => v <= 1000,
                None => false,
            },
        ),
{
    let mut r: Vec<OptimizationInfo> = Vec::new();
    r.push(
        info_row(
            "rss",
            "Receive-Side Scaling (RSS)",
            "Distribuye el procesamiento de paquetes entre múltiples CPUs",
            "Network",
            "low",
            string_contains_ci(current.rss.as_str(), "enabled"),
        ),
    );
    r.push(
        info_row(
            "rsc",
            "Receive Segment Coalescing (RSC)",
            "Combina segmentos TCP para reducir overhead de CPU",
            "Network",
            "low",
            string_contains_ci(current.rsc.as_str(), "enabled"),
        ),
    );
    r.push(
        info_row(
            "ecn",
            "Explicit Congestion Notification (ECN)",
            "Notificación de congestión sin pérdida de paquetes",
            "TCP",
            "low",
            string_contains_ci(current.ecn.as_str(), "enabled"),
        ),
    );
    r.push(
        info_row(
            "timestamps",
            "TCP Timestamps",
            "Mejora la medición de RTT y protección PAWS",
            "TCP",
            "low",
            string_contains_ci(current.timestamps.as_str(), "enabled"),
        ),
    );
    r.push(
        info_row(
            "hystart",
            "HyStart++",
            "Slow-start mejorado que evita bufferbloat",
            "Congestion",
            "medium",
            hystart,
        ),
    );
    r.push(
        info_row(
            "prr",
            "Proportional Rate Reduction (PRR)",
            "Recuperación suave de pérdidas de paquetes",
            "Congestion",
            "medium",
            prr,
        ),
    );
    r.push(
        info_row(
            "tfo",
            "TCP Fast Open (TFO)",
            "Envía datos en SYN, ahorra 1 RTT",
            "TCP",
            "medium",
            tfo,
        ),
    );
    let pacing_on = match wsd_value {
        Some(v) => v == 0,
        None => false,
    };
    r.push(
        info_row(
            "pacing",
            "TCP Pacing",
            "Envío suave de paquetes, reduce bufferbloat",
            "Congestion",
            "medium",
            pacing_on,
        ),
    );
    let rto_on = match initial_rto {
        Some(v) => v <= 1000,
        None => false,
    };
    r.push(
        info_row(
            "initial_rto",
            "Initial RTO Reducido",
            "Timeout inicial reducido de 3s a 1s",
            "TCP",
            "medium",
            rto_on,
        ),
    );
    r
}


fn key_matches_line_exec(lt: &str, key: &str) -> (r: bool)
    ensures
        r == key_matches_line(lt@, key@),
{
    let k = key_clean(key);
    if k.unicode_len() < 15 {
        starts_with_ci(lt, k)
    } else {
        string_contains_ci(lt, k)
    }
}

fn colon_field_exec(lt: &str) -> (r: Option<&str>)
    ensures
        match colon_field_of(lt@) {
            Some(v) => r matches Some(x) && x@ == v,
            None => r is None,
        },
{
    let n = lt.unicode_len();
    let p1 = find_char(lt, 0, ':');
    if p1 == n {
        None
    } else {
        let p2 = find_char(lt, p1 + 1, ':');
        Some(lt.substring_char(p1 + 1, p2))
    }
}

fn line_value_exec(line: &str, keys: &Vec<&str>) -> (r: Option<String>)
    ensures
        match line_value(line@, keys_view(keys@)) {
            Some(v) => r matches Some(x) && x@ == v,
            None => r is None,
        },
{
    let lt = trim_str(line);
    let kn = keys.len();
    let mut matched = false;
    let mut k: usize = 0;
    while k < kn
        invariant
            kn == keys@.len(),
            lt@ == trim_view(line@),
            k <= kn,
            matched ==> exists|j: int|
                0 <= j < k && key_matches_line(lt@, #[trigger] keys_view(keys@)[j]),
            !matched ==> forall|j: int|
                0 <= j < k ==> !key_matches_line(lt@, #[trigger] keys_view(keys@)[j]),
        decreases kn - k,
    {
        if !matched && key_matches_line_exec(lt, keys[k]) {
            matched = true;
            proof {
                assert(keys_view(keys@)[k as int] == keys@[k as int]@);
                assert(key_matches_line(lt@, keys_view(keys@)[k as int]));
            }
        }
        k = k + 1;
    }
    if !matched {
        return None;
    }
    match colon_field_exec(lt) {
        Some(raw) => {
            let v = trim_str(raw);
            if v.unicode_len() > 0 {
                Some(String::from_str(v))
            } else {
                None
            }
        },
        None => None,
    }
}

/// Scans `text` line by line for the first line that one of `keys` matches
/// and that carries a nonempty value after its colon; `unknown` when no line
/// does. This is how the reported TCP settings are read, with keys in every
/// language the report may use.
pub fn extract_value_multi(text: &str, keys: &Vec<&str>) -> (r: String)
    ensures
        r@ == extracted_value(text@, keys_view(keys@)),
{
    let ghost kv = keys_view(keys@);
    let n = text.unicode_len();
    proof {
        assert(text@.subrange(0, n as int) =~= text@);
    }
    let mut start: usize = 0;
    loop
        invariant
            n == text@.len(),
            start <= n,
            kv == keys_view(keys@),
            extracted_value(text@.subrange(start as int, n as int), kv) == extracted_value(
                text@,
                kv,
            ),
        decreases n - start,
    {
        let p = find_char(text, start, '\n');
        let line = text.substring_char(start, p);
        let ghost suffix = text@.subrange(start as int, n as int);
        proof {
            lemma_find_from_shift(text@, start as int, 0, '\n');
            assert(find_from(suffix, 0, '\n') == p - start);
            assert(line@ =~= suffix.subrange(0, p as int - start as int));
            if p == n {
                assert(line@ =~= suffix);
            }
        }
        let found = line_value_exec(line, keys);
        match found {
            Some(v) => {
                return v;
            },
            None => {},
        }
        if p == n {
            return String::from_str("unknown");
        }
        proof {
            assert(text@.subrange(p as int + 1, n as int) =~= suffix.subrange(
                p as int - start as int + 1,
                suffix.len() as int,
            ));
        }
        start = p + 1;
    }
}

/// The keys under which the receive-side scaling state is reported.
pub open spec fn rss_keys() -> Seq<Seq<char>> {
    seq![
        "Receive-Side Scaling State"@,
        "escalado de lado de recepci\u{f3}n"@,
        "Estado de escalado"@,
    ]
}

/// The keys under which the auto-tuning level is reported.
pub open spec fn autotuning_keys() -> Seq<Seq<char>> {
    seq![
        "Receive Window Auto-Tuning Level"@,
        "ajuste autom\u{e1}tico de ventana"@,
        "Nivel de ajuste"@,
    ]
}

/// The keys under which the segment-coalescing state is reported.
pub open spec fn rsc_keys() -> Seq<Seq<char>> {
    seq![
        "Receive Segment Coalescing State"@,
        "fusi\u{f3}n de segmento de recepci\u{f3}n"@,
        "Estado de fusi\u{f3}n"@,
    ]
}

/// The keys under which the ECN capability is reported.
pub open spec fn ecn_keys() -> Seq<Seq<char>> {
    seq!["ECN Capability"@, "Funcionalidad de ECN"@]
}

/// The keys under which the RFC 1323 timestamps state is reported.
pub open spec fn timestamps_keys() -> Seq<Seq<char>> {
    seq!["RFC 1323 Timestamps"@, "Marcas de hora RFC 1323"@]
}

/// The keys under which the chimney offload state is reported.
pub open spec fn chimney_keys() -> Seq<Seq<char>> {
    seq!["Chimney Offload State"@]
}

/// The keys under which the congestion control provider is reported.
pub open spec fn congestion_keys() -> Seq<Seq<char>> {
    seq![
        "Add-On Congestion Control Provider"@,
        "Proveedor de control de congesti\u{f3}n"@,
        "control de congesti\u{f3}n"@,
    ]
}

/// The keys under which the fast-open state is reported.
pub open spec fn fast_open_keys() -> Seq<Seq<char>> {
    seq!["Fast Open"@]
}

/// The keys under which the HyStart state is reported.
pub open spec fn hystart_keys() -> Seq<Seq<char>> {
    seq!["HyStart"@]
}

/// The keys under which the proportional-rate-reduction state is reported.
pub open spec fn prr_keys() -> Seq<Seq<char>> {
    seq!["Proportional Rate Reduction"@, "tasa proporcional"@]
}

/// The keys under which the pacing profile is reported.
pub open spec fn pacing_keys() -> Seq<Seq<char>> {
    seq!["Pacing Profile"@, "Perfil de velocidad"@]
}

/// The keys under which the initial retransmission timeout is reported.
pub open spec fn initial_rto_keys() -> Seq<Seq<char>> {
    seq!["Initial RTO"@, "RTO inicial"@]
}

/// The initial timeout, normalized: a recognized value gets a `ms` suffix
/// unless it already carries one, and an unrecognized one falls back to the
/// stock three seconds.
pub open spec fn normalized_rto(raw: Seq<char>) -> Seq<char> {
    if raw != "unknown"@ {
        if raw.len() >= 2 && raw.subrange(raw.len() - 2, raw.len() as int) == "ms"@ {
            raw
        } else {
            raw + "ms"@
        }
    } else {
        "3000ms"@
    }
}

/// Reads the current TCP settings out of the text the system's `netsh int
/// tcp show global` reported, recognizing each setting under its English and
/// Spanish labels; a setting that does not appear reads `unknown`. The RACK
/// state is not part of that report.
pub fn get_current_settings_internal(netsh_output: &str) -> (r: TcpSettings)
    ensures
        r.rss@ == extracted_value(netsh_output@, rss_keys()),
        r.autotuning@ == extracted_value(netsh_output@, autotuning_keys()),
        r.rsc@ == extracted_value(netsh_output@, rsc_keys()),
        r.ecn@ == extracted_value(netsh_output@, ecn_keys()),
        r.timestamps@ == extracted_value(netsh_output@, timestamps_keys()),
        r.chimney@ == extracted_value(netsh_output@, chimney_keys()),
        r.congestion_provider@ == extracted_value(netsh_output@, congestion_keys()),
        r.fast_open@ == extracted_value(netsh_output@, fast_open_keys()),
        r.hystart@ == extracted_value(netsh_output@, hystart_keys()),
        r.prr@ == extracted_value(netsh_output@, prr_keys()),
        r.pacing@ == extracted_value(netsh_output@, pacing_keys()),
        r.initial_rto@ == normalized_rto(
            extracted_value(netsh_output@, initial_rto_keys()),
        ),
        r.rack@ == "N/A"@,
{
    let rss_k: Vec<&str> = make_keys3(
        "Receive-Side Scaling State",
        "escalado de lado de recepci\u{f3}n",
        "Estado de escalado",
    );
    proof {
        assert(keys_view(rss_k@) =~= rss_keys());
    }
    let rss = extract_value_multi(netsh_output, &rss_k);
    let auto_k: Vec<&str> = make_keys3(
        "Receive Window Auto-Tuning Level",
        "ajuste autom\u{e1}tico de ventana",
        "Nivel de ajuste",
    );
    proof {
        assert(keys_view(auto_k@) =~= autotuning_keys());
    }
    let autotuning = extract_value_multi(netsh_output, &auto_k);
    let rsc_k: Vec<&str> = make_keys3(
        "Receive Segment Coalescing State",
        "fusi\u{f3}n de segmento de recepci\u{f3}n",
        "Estado de fusi\u{f3}n",
    );
    proof {
        assert(keys_view(rsc_k@) =~= rsc_keys());
    }
    let rsc = extract_value_multi(netsh_output, &rsc_k);
    let ecn_k: Vec<&str> = make_keys2("ECN Capability", "Funcionalidad de ECN");
    proof {
        assert(keys_view(ecn_k@) =~= ecn_keys());
    }
    let ecn = extract_value_multi(netsh_output, &ecn_k);
    let ts_k: Vec<&str> = make_keys2("RFC 1323 Timestamps", "Marcas de hora RFC 1323");
    proof {
        assert(keys_view(ts_k@) =~= timestamps_keys());
    }
    let timestamps = extract_value_multi(netsh_output, &ts_k);
    let chimney_k: Vec<&str> = make_keys1("Chimney Offload State");
    proof {
        assert(keys_view(chimney_k@) =~= chimney_keys());
    }
    let chimney = extract_value_multi(netsh_output, &chimney_k);
    let cong_k: Vec<&str> = make_keys3(
        "Add-On Congestion Control Provider",
        "Proveedor de control de congesti\u{f3}n",
        "control de congesti\u{f3}n",
    );
    proof {
        assert(keys_view(cong_k@) =~= congestion_keys());
    }
    let congestion_provider = extract_value_multi(netsh_output, &cong_k);
    let fo_k: Vec<&str> = make_keys1("Fast Open");
    proof {
        assert(keys_view(fo_k@) =~= fast_open_keys());
    }
    let fast_open = extract_value_multi(netsh_output, &fo_k);
    let hy_k: Vec<&str> = make_keys1("HyStart");
    proof {
        assert(keys_view(hy_k@) =~= hystart_keys());
    }
    let hystart = extract_value_multi(netsh_output, &hy_k);
    let prr_k: Vec<&str> = make_keys2("Proportional Rate Reduction", "tasa proporcional");
    proof {
        assert(keys_view(prr_k@) =~= prr_keys());
    }
    let prr = extract_value_multi(netsh_output, &prr_k);
    let pacing_k: Vec<&str> = make_keys2("Pacing Profile", "Perfil de velocidad");
    proof {
        assert(keys_view(pacing_k@) =~= pacing_keys());
    }
    let pacing = extract_value_multi(netsh_output, &pacing_k);
    let rto_k: Vec<&str> = make_keys2("Initial RTO", "RTO inicial");
    proof {
        assert(keys_view(rto_k@) =~= initial_rto_keys());
    }
    let raw_rto = extract_value_multi(netsh_output, &rto_k);
    let initial_rto = normalize_rto(raw_rto);
    TcpSettings {
        autotuning,
        rss,
        rsc,
        ecn,
        timestamps,
        chimney,
        congestion_provider,
        fast_open,
        hystart,
        prr,
        pacing,
        initial_rto,
        rack: String::from_str("N/A"),
    }
}

fn normalize_rto(raw: String) -> (r: String)
    ensures
        r@ == normalized_rto(raw@),
{
    proof {
        reveal_strlit("ms");
        assert("ms"@.len() == 2);
        assert("ms"@[0] == 'm');
        assert("ms"@[1] == 's');
    }
    if raw == String::from_str("unknown") {
        return String::from_str("3000ms");
    }
    let n = raw.as_str().unicode_len();
    let ends_ms = n >= 2 && raw.as_str().get_char(n - 2) == 'm' && raw.as_str().get_char(n - 1)
        == 's';
    proof {
        if raw@.len() >= 2 && raw@.subrange(raw@.len() - 2, raw@.len() as int) == "ms"@ {
            assert(raw@.subrange(raw@.len() - 2, raw@.len() as int)[0] == raw@[raw@.len() - 2]);
            assert(raw@.subrange(raw@.len() - 2, raw@.len() as int)[1] == raw@[raw@.len() - 1]);
        }
        if ends_ms {
            assert(raw@.subrange(raw@.len() - 2, raw@.len() as int) =~= "ms"@);
        }
    }
    if ends_ms {
        raw
    } else {
        let mut r = raw;
        r.append("ms");
        r
    }
}

fn make_keys1(a: &'static str) -> (r: Vec<&'static str>)
    ensures
        r@.len() == 1,
        r@[0] == a,
{
    let mut r: Vec<&'static str> = Vec::new();
    r.push(a);
    r
}

fn make_keys2(a: &'static str, b: &'static str) -> (r: Vec<&'static str>)
    ensures
        r@.len() == 2,
        r@[0] == a,
        r@[1] == b,
{
    let mut r: Vec<&'static str> = Vec::new();
    r.push(a);
    r.push(b);
    r
}

fn make_keys3(a: &'static str, b: &'static str, c: &'static str) -> (r: Vec<&'static str>)
    ensures
        r@.len() == 3,
        r@[0] == a,
        r@[1] == b,
        r@[2] == c,
{
    let mut r: Vec<&'static str> = Vec::new();
    r.push(a);
    r.push(b);
    r.push(c);
    r
}


/// An ASCII hexadecimal digit.
pub open spec fn is_hex_digit(c: char) -> bool {
    ||| 48 <= c as int <= 57
    ||| 97 <= c as int <= 102
    ||| 65 <= c as int <= 70
}

/// The numeric value of an ASCII hexadecimal digit.
pub open spec fn hex_digit_val(c: char) -> int {
    if 48 <= c as int <= 57 {
        c as int - 48
    } else if 97 <= c as int <= 102 {
        c as int - 87
    } else {
        c as int - 55
    }
}

/// The value of a string of hexadecimal digits, most significant first.
pub open spec fn hex_value(s: Seq<char>) -> int
    decreases s.len(),
{
    if s.len() == 0 {
        0
    } else {
        hex_value(s.drop_last()) * 16 + hex_digit_val(s.last())
    }
}

/// The first position at or after `i` that ends a hexadecimal literal: its
/// character is neither a hexadecimal digit nor an `x`.
pub open spec fn hex_end_from(s: Seq<char>, i: int) -> int
    decreases s.len() - i,
{
    if 0 <= i < s.len() {
        if is_hex_digit(s[i]) || s[i] == 'x' {
            hex_end_from(s, i + 1)
        } else {
            i
        }
    } else {
        s.len() as int
    }
}

/// The DWORD one report line carries: the hexadecimal digits after its first
/// `0x`, read as a 32-bit value. Nothing when the line has no `0x`, when no
/// digits follow it, when a stray `x` interrupts them, or when the value
/// overflows 32 bits.
pub open spec fn line_dword(line: Seq<char>) -> Option<u32> {
    let p = find_sub_from(line, "0x"@, 0);
    if p >= line.len() {
        None
    } else {
        let e = hex_end_from(line, p);
        if e < p + 2 {
            None
        } else {
            let digits = line.subrange(p + 2, e);
            if digits.len() == 0 {
                None
            } else if exists|q: int| 0 <= q < digits.len() && !is_hex_digit(#[trigger] digits[q]) {
                None
            } else if hex_value(digits) > u32::MAX {
                None
            } else {
                Some(hex_value(digits) as u32)
            }
        }
    }
}

/// The DWORD a registry query reported for `name`: the value of the first
/// line that mentions the name and carries a readable hexadecimal literal.
pub open spec fn registry_dword_of(text: Seq<char>, name: Seq<char>) -> Option<u32>
    decreases text.len(),
{
    let p = find_from(text, 0, '\n');
    if 0 <= p < text.len() {
        let line = text.subrange(0, p);
        if str_has(line, name) && line_dword(line) is Some {
            line_dword(line)
        } else {
            registry_dword_of(text.subrange(p + 1, text.len() as int), name)
        }
    } else {
        if str_has(text, name) && line_dword(text) is Some {
            line_dword(text)
        } else {
            None
        }
    }
}

fn is_hex_char(c: char) -> (r: bool)
    ensures
        r == is_hex_digit(c),
{
    let v = c as u32;
    (48 <= v && v <= 57) || (97 <= v && v <= 102) || (65 <= v && v <= 70)
}

fn hex_char_val(c: char) -> (r: u64)
    requires
        is_hex_digit(c),
    ensures
        r == hex_digit_val(c),
        r < 16,
{
    let v = c as u32;
    if 48 <= v && v <= 57 {
        (v - 48) as u64
    } else if 97 <= v && v <= 102 {
        (v - 87) as u64
    } else {
        (v - 55) as u64
    }
}

/// The value one u32 past the largest, marking an overflowed accumulator.
const DWORD_OVERFLOW: u64 = 0x1_0000_0000;

fn parse_line_dword(line: &str) -> (r: Option<u32>)
    ensures
        r == line_dword(line@),
{
    let n = line.unicode_len();
    let p = find_substring(line, "0x");
    if p == n {
        return None;
    }
    let mut j = p;
    while j < n && (is_hex_char(line.get_char(j)) || line.get_char(j) == 'x')
        invariant
            n == line@.len(),
            p <= j <= n,
            hex_end_from(line@, p as int) == hex_end_from(line@, j as int),
        decreases n - j,
    {
        j = j + 1;
    }
    proof {
        assert(hex_end_from(line@, j as int) == j);
    }
    if j - p <= 2 {
        return None;
    }
    let mut acc: u64 = 0;
    let mut k = p + 2;
    let mut bad = false;
    while k < j
        invariant
            n == line@.len(),
            p + 2 <= k <= j,
            j <= n,
            bad ==> exists|q: int|
                p + 2 <= q < j && !is_hex_digit(#[trigger] line@[q]),
            !bad ==> forall|q: int| p + 2 <= q < k ==> is_hex_digit(#[trigger] line@[q]),
            !bad ==> {
                let pre = line@.subrange(p as int + 2, k as int);
                ||| (acc == hex_value(pre) && acc <= u32::MAX)
                ||| (acc == DWORD_OVERFLOW && hex_value(pre) > u32::MAX)
            },
        decreases j - k,
    {
        let c = line.get_char(k);
        if !is_hex_char(c) {
            bad = true;
            k = j;
        } else {
            let d = hex_char_val(c);
            proof {
                let pre = line@.subrange(p as int + 2, k as int);
                let ext = line@.subrange(p as int + 2, k as int + 1);
                assert(ext.drop_last() =~= pre);
                assert(ext.last() == line@[k as int]);
                assert(hex_value(ext) == hex_value(pre) * 16 + hex_digit_val(line@[k as int]));
            }
            if !bad {
                if acc <= u32::MAX as u64 {
                    let next = acc * 16 + d;
                    if next > u32::MAX as u64 {
                        acc = DWORD_OVERFLOW;
                    } else {
                        acc = next;
                    }
                } else {
                    proof {
                        let pre = line@.subrange(p as int + 2, k as int);
                        assert(hex_value(pre) * 16 + hex_digit_val(line@[k as int]) >= hex_value(
                            pre,
                        ));
                    }
                }
            }
            k = k + 1;
        }
    }
    proof {
        let digits = line@.subrange(p as int + 2, j as int);
        assert(digits.len() > 0);
        if bad {
            let w = choose|q: int| p + 2 <= q < j && !is_hex_digit(#[trigger] line@[q]);
            assert(digits[w - p - 2] == line@[w]);
            assert(!is_hex_digit(digits[w - p - 2]));
        } else {
            assert forall|q: int| 0 <= q < digits.len() implies is_hex_digit(
                #[trigger] digits[q],
            ) by {
                assert(digits[q] == line@[p + 2 + q]);
            }
        }
    }
    if bad {
        return None;
    }
    if acc > u32::MAX as u64 {
        None
    } else {
        Some(acc as u32)
    }
}

/// Reads the DWORD a `reg query` of `name` reported: scans the report for
/// the first line that names the value and carries a hexadecimal literal.
pub fn parse_registry_dword(output: &str, name: &str) -> (r: Option<u32>)
    ensures
        r == registry_dword_of(output@, name@),
{
    let n = output.unicode_len();
    proof {
        assert(output@.subrange(0, n as int) =~= output@);
    }
    let mut start: usize = 0;
    loop
        invariant
            n == output@.len(),
            start <= n,
            registry_dword_of(output@.subrange(start as int, n as int), name@)
                == registry_dword_of(output@, name@),
        decreases n - start,
    {
        let p = find_char(output, start, '\n');
        let line = output.substring_char(start, p);
        let ghost suffix = output@.subrange(start as int, n as int);
        proof {
            lemma_find_from_shift(output@, start as int, 0, '\n');
            assert(find_from(suffix, 0, '\n') == p - start);
            assert(line@ =~= suffix.subrange(0, p as int - start as int));
            if p == n {
                assert(line@ =~= suffix);
            }
        }
        if string_contains(line, name) {
            let found = parse_line_dword(line);
            match found {
                Some(v) => {
                    return Some(v);
                },
                None => {},
            }
        }
        if p == n {
            return None;
        }
        proof {
            assert(output@.subrange(p as int + 1, n as int) =~= suffix.subrange(
                p as int - start as int + 1,
                suffix.len() as int,
            ));
        }
        start = p + 1;
    }
}

} // verus!
