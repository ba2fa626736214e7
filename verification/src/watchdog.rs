//! Connectivity watchdog decisions.
//!
//! Each tick runs two passes: flush the firewall when any rule is
//! present, and drive the data bearer toward an active context,
//! auto-selecting the APN by operator identity.  This module holds the
//! decisions; running the shell commands and the property writes is the
//! shell's job.

use vstd::prelude::*;
use crate::text::{str_eq, starts_with, starts_with_chars, chars_of, lines_of, spec_lines};

verus! {

/// Rule counts per address family, as read from the firewall listing.
pub struct IptablesRuleCount {
    pub ipv4_rules: usize,
    pub ipv6_rules: usize,
}

impl IptablesRuleCount {
    /// True when either family carries at least one rule.
    pub fn has_rules(&self) -> (r: bool)
        ensures
            r == (self.ipv4_rules > 0 || self.ipv6_rules > 0),
    {
        self.ipv4_rules > 0 || self.ipv6_rules > 0
    }

    /// Total rules over both families.
    pub fn total(&self) -> (r: usize)
        requires
            self.ipv4_rules + self.ipv6_rules <= usize::MAX,
        ensures
            r == self.ipv4_rules + self.ipv6_rules,
    {
        self.ipv4_rules + self.ipv6_rules
    }
}

/// Count of listing lines that append a rule (`-A ` lines; policy and
/// chain lines do not count).
pub open spec fn spec_rule_line_count(lines: Seq<Seq<char>>) -> int
    decreases lines.len(),
{
    if lines.len() == 0 {
        0
    } else {
        spec_rule_line_count(lines.drop_last()) + (if starts_with(
            lines[lines.len() - 1],
            "-A "@,
        ) {
            1int
        } else {
            0int
        })
    }
}

proof fn lemma_rule_line_count_bound(lines: Seq<Seq<char>>)
    ensures
        0 <= spec_rule_line_count(lines) <= lines.len(),
    decreases lines.len(),
{
    if lines.len() > 0 {
        lemma_rule_line_count_bound(lines.drop_last());
    }
}

/// Count the appended rules in one firewall listing.
pub fn count_appended_rules(output: &str) -> (r: usize)
    ensures
        r == spec_rule_line_count(spec_lines(output@)),
{
    let cs = chars_of(output);
    let lines = lines_of(&cs);
    let marker = chars_of("-A ");
    let ghost all = spec_lines(output@);
    proof {
        lemma_rule_line_count_bound(all);
    }
    let mut count: usize = 0;
    let mut i: usize = 0;
    while i < lines.len()
        invariant
            0 <= i <= lines@.len(),
            lines@.len() == all.len(),
            forall|j: int| 0 <= j < lines@.len() ==> #[trigger] lines@[j]@ == all[j],
            marker@ == "-A "@,
            count == spec_rule_line_count(all.take(i as int)),
            count <= i,
        decreases lines@.len() - i,
    {
        proof {
            assert(all.take(i + 1).drop_last() =~= all.take(i as int));
            assert(all.take(i + 1)[i as int] == all[i as int]);
        }
        if starts_with_chars(&lines[i], &marker) {
            count = count + 1;
        }
        i = i + 1;
    }
    proof {
        assert(all.take(all.len() as int) =~= all);
    }
    count
}

/// What one firewall pass does.
pub struct FirewallPassOutcome {
    /// Run the flush commands this tick.
    pub flush: bool,
    /// Log the flush (only on the transition into a flushing tick).
    pub log_flush: bool,
    /// The transition flag to carry to the next tick, assuming the
    /// flush (if any) succeeds; a failed flush keeps the old flag.
    pub flag_after: bool,
}

/// Decide the firewall pass.  The firewall is flushed exactly when the
/// tick observed a non-zero rule count; the flush is logged only on the
/// transition from a clean tick.
pub fn firewall_pass_decision(count: &IptablesRuleCount, last_flushed: bool) -> (r:
    FirewallPassOutcome)
    ensures
        r.flush <==> (count.ipv4_rules > 0 || count.ipv6_rules > 0),
        r.log_flush == (r.flush && !last_flushed),
        r.flag_after == r.flush,
{
    let flush = count.has_rules();
    FirewallPassOutcome { flush, log_flush: flush && !last_flushed, flag_after: flush }
}

/// The operator APN table: known Chinese operators by MCC/MNC, all with
/// dual-stack protocol.
pub open spec fn spec_recommended_apn(mcc: Seq<char>, mnc: Seq<char>) -> Option<(
    Seq<char>,
    Seq<char>,
)> {
    if mcc == "460"@ {
        if mnc == "00"@ || mnc == "02"@ || mnc == "07"@ || mnc == "08"@ {
            Some(("cmnet"@, "dual"@))
        } else if mnc == "01"@ || mnc == "06"@ || mnc == "09"@ {
            Some(("3gnet"@, "dual"@))
        } else if mnc == "03"@ || mnc == "05"@ || mnc == "11"@ {
            Some(("ctnet"@, "dual"@))
        } else if mnc == "15"@ {
            Some(("cbnet"@, "dual"@))
        } else {
            None
        }
    } else {
        None
    }
}

/// Look up the recommended APN and protocol for an operator.
pub fn get_recommended_apn(mcc: &str, mnc: &str) -> (r: Option<(&'static str, &'static str)>)
    ensures
        r is Some <==> spec_recommended_apn(mcc@, mnc@) is Some,
        r is Some ==> ((r->0).0@, (r->0).1@) == spec_recommended_apn(mcc@, mnc@)->0,
{
    if !str_eq(mcc, "460") {
        return None;
    }
    if str_eq(mnc, "00") || str_eq(mnc, "02") || str_eq(mnc, "07") || str_eq(mnc, "08") {
        Some(("cmnet", "dual"))
    } else if str_eq(mnc, "01") || str_eq(mnc, "06") || str_eq(mnc, "09") {
        Some(("3gnet", "dual"))
    } else if str_eq(mnc, "03") || str_eq(mnc, "05") || str_eq(mnc, "11") {
        Some(("ctnet", "dual"))
    } else if str_eq(mnc, "15") {
        Some(("cbnet", "dual"))
    } else {
        None
    }
}

/// True for a registration status under which data may be driven.
pub open spec fn network_ready(status: Seq<char>) -> bool {
    status == "registered"@ || status == "roaming"@
}

/// What the data pass decides for one tick.
pub enum DataPassAction {
    /// Not registered: wait for the network, touch nothing.
    WaitForNetwork,
    /// The context is already active: nothing to do.
    AlreadyConnected,
    /// The context has no APN and the operator is known: write the APN
    /// and protocol, then activate.
    AutoConfigure { apn: String, protocol: String },
    /// The context has no APN and the operator is unknown: report and
    /// stop.
    NoApnForOperator,
    /// The context has an APN but is inactive: activate it.
    Activate,
}

/// Decide the data pass from the observed state: the registration
/// status, the selected context's APN and active flag, and the serving
/// operator codes.
pub fn data_pass_decision(status: &str, apn: &str, active: bool, mcc: &str, mnc: &str) -> (r:
    DataPassAction)
    ensures
        !network_ready(status@) <==> r is WaitForNetwork,
        network_ready(status@) && active <==> r is AlreadyConnected,
        network_ready(status@) && !active && apn@.len() == 0 && spec_recommended_apn(
            mcc@,
            mnc@,
        ) is Some <==> r is AutoConfigure,
        r matches DataPassAction::AutoConfigure { apn: a, protocol: p } ==> (a@, p@)
            == spec_recommended_apn(mcc@, mnc@)->0,
        network_ready(status@) && !active && apn@.len() == 0 && spec_recommended_apn(
            mcc@,
            mnc@,
        ) is None <==> r is NoApnForOperator,
        network_ready(status@) && !active && apn@.len() > 0 <==> r is Activate,
{
    if !str_eq(status, "registered") && !str_eq(status, "roaming") {
        return DataPassAction::WaitForNetwork;
    }
    if active {
        return DataPassAction::AlreadyConnected;
    }
    if apn.is_empty() {
        match get_recommended_apn(mcc, mnc) {
            Some((a, p)) => DataPassAction::AutoConfigure {
                apn: String::from_str(a),
                protocol: String::from_str(p),
            },
            None => DataPassAction::NoApnForOperator,
        }
    } else {
        DataPassAction::Activate
    }
}

/// What startup data initialization decides (a single, quieter pass).
pub enum InitDataAction {
    /// Not registered: skip auto-connect.
    SkipNotRegistered,
    /// The context is already active: nothing to do.
    AlreadyActive,
    /// No APN configured: skip auto-connect.
    SkipNoApn,
    /// Activate the context.
    Activate,
}

/// Decide the startup pass: activate only a registered, inactive
/// context that already has an APN.
pub fn init_data_decision(status: &str, active: bool, apn: &str) -> (r: InitDataAction)
    ensures
        !network_ready(status@) <==> r is SkipNotRegistered,
        network_ready(status@) && active <==> r is AlreadyActive,
        network_ready(status@) && !active && apn@.len() == 0 <==> r is SkipNoApn,
        network_ready(status@) && !active && apn@.len() > 0 <==> r is Activate,
{
    if !str_eq(status, "registered") && !str_eq(status, "roaming") {
        InitDataAction::SkipNotRegistered
    } else if active {
        InitDataAction::AlreadyActive
    } else if apn.is_empty() {
        InitDataAction::SkipNoApn
    } else {
        InitDataAction::Activate
    }
}

/// One step of a context mutation.
pub enum ApnStep {
    /// Set `Active = false` on the context.
    Deactivate,
    /// Let the stack settle for the given milliseconds.
    SleepMs(u64),
    /// Write one context property.
    WriteProperty(String, String),
    /// Set `Active = true` on the context.
    Activate,
}

/// The mathematical image of a mutation step.
pub ghost enum ApnStepV {
    Deactivate,
    SleepMs(int),
    WriteProperty(Seq<char>, Seq<char>),
    Activate,
}

impl View for ApnStep {
    type V = ApnStepV;

    open spec fn view(&self) -> ApnStepV {
        match self {
            ApnStep::Deactivate => ApnStepV::Deactivate,
            ApnStep::SleepMs(ms) => ApnStepV::SleepMs(*ms as int),
            ApnStep::WriteProperty(n, v) => ApnStepV::WriteProperty(n@, v@),
            ApnStep::Activate => ApnStepV::Activate,
        }
    }
}

/// The view of a step list.
pub open spec fn plan_view(v: Seq<ApnStep>) -> Seq<ApnStepV> {
    v.map_values(|s: ApnStep| s@)
}

/// One optional property write.
pub open spec fn opt_write(name: Seq<char>, value: Option<Seq<char>>) -> Seq<ApnStepV> {
    match value {
        Some(v) => seq![ApnStepV::WriteProperty(name, v)],
        None => Seq::empty(),
    }
}

/// The property writes of a context mutation, in a fixed order.
pub open spec fn spec_apn_writes(apn: Option<Seq<char>>, protocol: Option<Seq<char>>,
    username: Option<Seq<char>>, password: Option<Seq<char>>, auth_method: Option<Seq<char>>)
    -> Seq<ApnStepV> {
    opt_write("AccessPointName"@, apn) + opt_write("Protocol"@, protocol) + opt_write(
        "Username"@,
        username,
    ) + opt_write("Password"@, password) + opt_write("AuthenticationMethod"@, auth_method)
}

/// The full mutation plan: an active context is bounced around the
/// writes with settle pauses; an inactive context takes the writes
/// alone.
pub open spec fn spec_apn_plan(was_active: bool, apn: Option<Seq<char>>,
    protocol: Option<Seq<char>>, username: Option<Seq<char>>, password: Option<Seq<char>>,
    auth_method: Option<Seq<char>>) -> Seq<ApnStepV> {
    let writes = spec_apn_writes(apn, protocol, username, password, auth_method);
    if was_active {
        seq![ApnStepV::Deactivate, ApnStepV::SleepMs(500)] + writes + seq![
            ApnStepV::SleepMs(500),
            ApnStepV::Activate,
        ]
    } else {
        writes
    }
}

/// The view of an optional string argument.
pub open spec fn opt_view(v: Option<&str>) -> Option<Seq<char>> {
    match v {
        Some(s) => Some(s@),
        None => None,
    }
}

/// Plan a context mutation.  A context that is already inactive gets
/// the property writes alone — no deactivate, no pauses, no
/// reactivate.
pub fn plan_apn_update(was_active: bool, apn: Option<&str>, protocol: Option<&str>,
    username: Option<&str>, password: Option<&str>, auth_method: Option<&str>) -> (r: Vec<
    ApnStep,
>)
    ensures
        plan_view(r@) == spec_apn_plan(
            was_active,
            opt_view(apn),
            opt_view(protocol),
            opt_view(username),
            opt_view(password),
            opt_view(auth_method),
        ),
{
    let ghost target = spec_apn_plan(
        was_active,
        opt_view(apn),
        opt_view(protocol),
        opt_view(username),
        opt_view(password),
        opt_view(auth_method),
    );
    let mut plan: Vec<ApnStep> = Vec::new();
    assert(plan_view(plan@) =~= Seq::<ApnStepV>::empty());
    if was_active {
        plan.push(ApnStep::Deactivate);
        plan.push(ApnStep::SleepMs(500));
        assert(plan_view(plan@) =~= seq![ApnStepV::Deactivate, ApnStepV::SleepMs(500)]);
    }
    push_opt_write(&mut plan, "AccessPointName", apn);
    push_opt_write(&mut plan, "Protocol", protocol);
    push_opt_write(&mut plan, "Username", username);
    push_opt_write(&mut plan, "Password", password);
    push_opt_write(&mut plan, "AuthenticationMethod", auth_method);
    let ghost before_tail = plan@;
    if was_active {
        plan.push(ApnStep::SleepMs(500));
        plan.push(ApnStep::Activate);
        assert(plan_view(plan@) =~= plan_view(before_tail) + seq![
            ApnStepV::SleepMs(500),
            ApnStepV::Activate,
        ]);
    }
    proof {
        assert(plan_view(plan@) =~= target);
    }
    plan
}

/// Append the write for one present property.
fn push_opt_write(plan: &mut Vec<ApnStep>, name: &'static str, value: Option<&str>)
    ensures
        plan_view(final(plan)@) == plan_view(old(plan)@) + opt_write(name@, opt_view(value)),
{
    let ghost before = plan@;
    match value {
        Some(v) => {
            plan.push(ApnStep::WriteProperty(String::from_str(name), String::from_str(v)));
            proof {
                assert(plan_view(plan@) =~= plan_view(before) + opt_write(
                    name@,
                    opt_view(value),
                ));
            }
        },
        None => {
            proof {
                assert(plan_view(plan@) =~= plan_view(before) + opt_write(
                    name@,
                    opt_view(value),
                ));
            }
        },
    }
}

/// Law: a mutation of an already-inactive context touches properties
/// only — its plan holds no deactivate, pause or activate step.
pub proof fn lemma_inactive_update_writes_only(apn: Option<Seq<char>>,
    protocol: Option<Seq<char>>, username: Option<Seq<char>>, password: Option<Seq<char>>,
    auth_method: Option<Seq<char>>)
    ensures
        forall|i: int|
            0 <= i < spec_apn_plan(false, apn, protocol, username, password, auth_method).len()
                ==> #[trigger] spec_apn_plan(
                false,
                apn,
                protocol,
                username,
                password,
                auth_method,
            )[i] is WriteProperty,
{
    let writes = spec_apn_writes(apn, protocol, username, password, auth_method);
    assert forall|i: int| 0 <= i < writes.len() implies #[trigger] writes[i]
        is WriteProperty by {
        let w1 = opt_write("AccessPointName"@, apn);
        let w2 = opt_write("Protocol"@, protocol);
        let w3 = opt_write("Username"@, username);
        let w4 = opt_write("Password"@, password);
        let w5 = opt_write("AuthenticationMethod"@, auth_method);
        assert(writes == w1 + w2 + w3 + w4 + w5);
        assert(forall|j: int| 0 <= j < w1.len() ==> #[trigger] w1[j] is WriteProperty);
        assert(forall|j: int| 0 <= j < w2.len() ==> #[trigger] w2[j] is WriteProperty);
        assert(forall|j: int| 0 <= j < w3.len() ==> #[trigger] w3[j] is WriteProperty);
        assert(forall|j: int| 0 <= j < w4.len() ==> #[trigger] w4[j] is WriteProperty);
        assert(forall|j: int| 0 <= j < w5.len() ==> #[trigger] w5[j] is WriteProperty);
    }
}

} // verus!
