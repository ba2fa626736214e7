use udx710_core::store::{SmsStore, CallStore, CallEndAction, call_removed_action};
use udx710_core::watchdog::{IptablesRuleCount, FirewallPassOutcome, firewall_pass_decision,
    count_appended_rules, get_recommended_apn, data_pass_decision, DataPassAction,
    init_data_decision, InitDataAction, plan_apn_update, ApnStep};
use udx710_core::system::{format_uptime, identify_cpu_model};

#[test]
fn rule_count_predicates() {
    let none = IptablesRuleCount { ipv4_rules: 0, ipv6_rules: 0 };
    assert!(!none.has_rules());
    assert_eq!(none.total(), 0);
    let some = IptablesRuleCount { ipv4_rules: 2, ipv6_rules: 3 };
    assert!(some.has_rules());
    assert_eq!(some.total(), 5);
    assert!(IptablesRuleCount { ipv4_rules: 0, ipv6_rules: 1 }.has_rules());
}

#[test]
fn appended_rules_are_counted() {
    let listing = "-P INPUT ACCEPT\n-N CUSTOM\n-A INPUT -j DROP\n-A FORWARD -j ACCEPT\n";
    assert_eq!(count_appended_rules(listing), 2);
    assert_eq!(count_appended_rules(""), 0);
    assert_eq!(count_appended_rules("-P INPUT ACCEPT"), 0);
}

#[test]
fn firewall_flush_exactly_on_rules() {
    let none = IptablesRuleCount { ipv4_rules: 0, ipv6_rules: 0 };
    let some = IptablesRuleCount { ipv4_rules: 1, ipv6_rules: 0 };
    let d: FirewallPassOutcome = firewall_pass_decision(&some, false);
    assert!(d.flush && d.log_flush && d.flag_after);
    let d = firewall_pass_decision(&some, true);
    assert!(d.flush && !d.log_flush && d.flag_after);
    let d = firewall_pass_decision(&none, true);
    assert!(!d.flush && !d.log_flush && !d.flag_after);
    let d = firewall_pass_decision(&none, false);
    assert!(!d.flush && !d.log_flush && !d.flag_after);
}

#[test]
fn operator_apn_table() {
    assert_eq!(get_recommended_apn("460", "00"), Some(("cmnet", "dual")));
    assert_eq!(get_recommended_apn("460", "07"), Some(("cmnet", "dual")));
    assert_eq!(get_recommended_apn("460", "01"), Some(("3gnet", "dual")));
    assert_eq!(get_recommended_apn("460", "11"), Some(("ctnet", "dual")));
    assert_eq!(get_recommended_apn("460", "15"), Some(("cbnet", "dual")));
    assert_eq!(get_recommended_apn("460", "99"), None);
    assert_eq!(get_recommended_apn("310", "00"), None);
}

#[test]
fn data_pass_waits_without_registration() {
    assert!(matches!(
        data_pass_decision("searching", "", false, "460", "00"),
        DataPassAction::WaitForNetwork
    ));
    assert!(matches!(
        data_pass_decision("roaming", "cmnet", true, "460", "00"),
        DataPassAction::AlreadyConnected
    ));
}

#[test]
fn data_pass_autoconfigures_known_operator() {
    match data_pass_decision("registered", "", false, "460", "00") {
        DataPassAction::AutoConfigure { apn, protocol } => {
            assert_eq!(apn, "cmnet");
            assert_eq!(protocol, "dual");
        }
        _ => panic!("expected auto-configuration"),
    }
    assert!(matches!(
        data_pass_decision("registered", "", false, "262", "01"),
        DataPassAction::NoApnForOperator
    ));
    assert!(matches!(
        data_pass_decision("registered", "cmnet", false, "460", "00"),
        DataPassAction::Activate
    ));
}

#[test]
fn init_pass_decisions() {
    assert!(matches!(init_data_decision("denied", false, ""), InitDataAction::SkipNotRegistered));
    assert!(matches!(init_data_decision("registered", true, "x"), InitDataAction::AlreadyActive));
    assert!(matches!(init_data_decision("registered", false, ""), InitDataAction::SkipNoApn));
    assert!(matches!(init_data_decision("registered", false, "cmnet"), InitDataAction::Activate));
}

#[test]
fn inactive_context_update_writes_only() {
    let plan = plan_apn_update(false, Some("cmnet"), Some("dual"), None, None, None);
    assert_eq!(plan.len(), 2);
    for step in &plan {
        match step {
            ApnStep::WriteProperty(_, _) => {}
            _ => panic!("an inactive context must only take property writes"),
        }
    }
    match &plan[0] {
        ApnStep::WriteProperty(name, value) => {
            assert_eq!(name, "AccessPointName");
            assert_eq!(value, "cmnet");
        }
        _ => unreachable!(),
    }
}

#[test]
fn active_context_update_bounces_the_bearer() {
    let plan = plan_apn_update(true, Some("cmnet"), None, Some("u"), Some("p"), Some("chap"));
    assert_eq!(plan.len(), 8);
    assert!(matches!(plan[0], ApnStep::Deactivate));
    assert!(matches!(plan[1], ApnStep::SleepMs(500)));
    assert!(matches!(plan[6], ApnStep::SleepMs(500)));
    assert!(matches!(plan[7], ApnStep::Activate));
    match &plan[5] {
        ApnStep::WriteProperty(name, value) => {
            assert_eq!(name, "AuthenticationMethod");
            assert_eq!(value, "chap");
        }
        _ => panic!("expected the last write before reactivation"),
    }
}

#[test]
fn empty_update_on_active_context_still_bounces() {
    let plan = plan_apn_update(true, None, None, None, None, None);
    assert_eq!(plan.len(), 4);
    assert!(matches!(plan[0], ApnStep::Deactivate));
    assert!(matches!(plan[3], ApnStep::Activate));
}

#[test]
fn missed_incoming_call_row() {
    let mut store = CallStore::new();
    let id = store.on_call_added("incoming", "+12025550123");
    let action = call_removed_action(false, true, 0, 30);
    assert!(matches!(action, CallEndAction::Missed));
    store.on_call_removed(id, action);
    let row = store.row_by_id(id).unwrap();
    assert_eq!(row.direction, "missed");
    assert!(!row.answered);
    assert_eq!(row.duration, 0);
    assert!(row.end_time.is_some());
}

#[test]
fn answered_call_row_gets_duration() {
    let mut store = CallStore::new();
    let id = store.on_call_added("dialing", "+3110");
    let row = store.row_by_id(id).unwrap();
    assert_eq!(row.direction, "outgoing");
    let action = call_removed_action(true, false, 100, 142);
    store.on_call_removed(id, action);
    let row = store.row_by_id(id).unwrap();
    assert!(row.answered);
    assert_eq!(row.duration, 42);
    assert_eq!(row.direction, "outgoing");
}

#[test]
fn cancelled_outgoing_call_keeps_zero_duration() {
    let mut store = CallStore::new();
    let id = store.on_call_added("dialing", "+3110");
    store.on_call_removed(id, call_removed_action(false, false, 0, 99));
    let row = store.row_by_id(id).unwrap();
    assert!(!row.answered);
    assert_eq!(row.duration, 0);
    assert_eq!(row.direction, "outgoing");
}

#[test]
fn every_terminal_row_upholds_the_invariants() {
    let mut store = CallStore::new();
    let a = store.on_call_added("incoming", "+1");
    let b = store.on_call_added("dialing", "+2");
    let c = store.on_call_added("incoming", "+3");
    store.on_call_removed(a, call_removed_action(false, true, 0, 10));
    store.on_call_removed(b, call_removed_action(true, false, 5, 17));
    store.on_call_removed(c, call_removed_action(false, false, 0, 20));
    for row in store.rows_snapshot() {
        if !row.answered {
            assert_eq!(row.duration, 0);
        }
        if row.direction == "missed" {
            assert!(!row.answered);
        }
    }
}

#[test]
fn call_stats_sum_only_answered() {
    let mut store = CallStore::new();
    let a = store.on_call_added("incoming", "+1");
    let b = store.on_call_added("dialing", "+2");
    let c = store.on_call_added("incoming", "+3");
    store.on_call_removed(a, call_removed_action(true, true, 0, 30));
    store.on_call_removed(b, call_removed_action(false, false, 0, 1));
    store.on_call_removed(c, call_removed_action(false, true, 0, 2));
    let stats = store.call_stats();
    assert_eq!(stats.total, 3);
    assert_eq!(stats.incoming, 1);
    assert_eq!(stats.outgoing, 1);
    assert_eq!(stats.missed, 1);
    assert_eq!(stats.total_duration, 30);
}

#[test]
fn call_store_delete_and_clear() {
    let mut store = CallStore::new();
    let a = store.on_call_added("incoming", "+1");
    let b = store.on_call_added("incoming", "+2");
    store.delete_call(a);
    assert!(store.row_by_id(a).is_none());
    assert!(store.row_by_id(b).is_some());
    store.clear_all_calls();
    assert_eq!(store.rows_snapshot().len(), 0);
}

#[test]
fn sms_store_counts_directions() {
    let mut store = SmsStore::new();
    let a = store.insert_sms("incoming", "+1", "hello", "received", None);
    let _b = store.insert_sms("outgoing", "+1", "re", "sent", None);
    let _c = store.insert_sms("incoming", "+2", "spam", "received", Some("07".to_string()));
    assert_eq!(a, 1);
    let stats = store.sms_stats();
    assert_eq!(stats.total, 3);
    assert_eq!(stats.incoming, 2);
    assert_eq!(stats.outgoing, 1);
    store.update_sms_status(a, "failed");
    let rows = store.rows_snapshot();
    assert_eq!(rows[0].status, "failed");
    assert_eq!(rows[1].status, "sent");
    store.clear_all_sms();
    assert_eq!(store.sms_stats().total, 0);
}

#[test]
fn uptime_formatting() {
    assert_eq!(format_uptime(0), "0\u{79d2}");
    assert_eq!(format_uptime(60), "1\u{5206}\u{949f}");
    assert_eq!(format_uptime(90061), "1\u{5929} 1\u{5c0f}\u{65f6} 1\u{5206}\u{949f} 1\u{79d2}");
    assert_eq!(format_uptime(3600), "1\u{5c0f}\u{65f6}");
    assert_eq!(format_uptime(61), "1\u{5206}\u{949f} 1\u{79d2}");
}

#[test]
fn cpu_model_lookup() {
    assert_eq!(identify_cpu_model("0x41", "0xd05"), "ARM Cortex-A55");
    assert_eq!(identify_cpu_model("0x41", "0xd41"), "ARM Cortex-A78");
    assert_eq!(identify_cpu_model("0x41", "0xbeef"), "ARM CPU (part: 0xbeef)");
    assert_eq!(identify_cpu_model("0x99", "0x1"), "CPU (implementer: 0x99, part: 0x1)");
}
