use udx710_core::usb::{UsbModeConfig, mode_from_ids, current_mode_decision, parse_mode_file,
    plan_mode_config_write, usb_mode_report, serial_number_of, hardware_id_of, generate_product_name,
    host_mac_of, switch_plan, GadgetStep};
use udx710_core::modem::{PropValue, prop_get_str, prop_get_bool, sim_info_from_props,
    network_info_from_props, device_info_from_props, airplane_mode_from_props,
    roaming_status_from_props, radio_mode_from_props, find_internet_context,
    apn_contexts_from, call_entry_from_props, operator_from_props, serving_cell_from_props,
    call_forwarding_from_props, call_settings_from_props, call_volume_from_props,
    forwarding_property_name, ims_status_from_props, voicemail_from_props};
use udx710_core::models::{RadioMode, ApiResponse, default_nr_rat, default_page_size,
    default_limit, UsbMode};

#[test]
fn usb_mode_table() {
    let ncm = UsbModeConfig::get(1).unwrap();
    assert_eq!((ncm.vid, ncm.pid, ncm.configuration), ("0x1782", "0x4040", "ncm"));
    assert_eq!(ncm.pamu3_protocol, Some("NCM"));
    assert!(!ncm.usb_share_enable);
    let ecm = UsbModeConfig::get(2).unwrap();
    assert_eq!(ecm.pid, "0x4039");
    assert!(ecm.pamu3_protocol.is_none());
    let rndis = UsbModeConfig::get(3).unwrap();
    assert_eq!((rndis.pid, rndis.functions), ("0x4038", "rndis.gs4"));
    assert!(rndis.usb_share_enable);
    assert!(UsbModeConfig::get(0).is_none());
    assert!(UsbModeConfig::get(4).is_none());
}

#[test]
fn mode_from_id_pairs() {
    assert_eq!(mode_from_ids("0x1782", "0x4040"), Some(1));
    assert_eq!(mode_from_ids("0x1782", "0x4039"), Some(2));
    assert_eq!(mode_from_ids("0x1782", "0x4038"), Some(3));
    assert_eq!(mode_from_ids("0x1782", "0x4105"), Some(1));
    assert_eq!(mode_from_ids("0x1782", "0x4102"), Some(2));
    assert_eq!(mode_from_ids("0x3426", "0x2999"), Some(1));
    assert_eq!(mode_from_ids("0x3426", "0x4040"), None);
    assert_eq!(mode_from_ids("0x1782", "0xffff"), None);
}

#[test]
fn set_then_read_mode_round_trips() {
    for mode in 1u8..=3 {
        let cfg = UsbModeConfig::get(mode).unwrap();
        // a successful switch writes these ids; the raw configfs reads
        // come back with a trailing newline
        let vid_raw = format!("{}\n", cfg.vid);
        let pid_raw = format!("{}\n", cfg.pid);
        assert_eq!(current_mode_decision(&vid_raw, &pid_raw, None), Some(mode));
    }
}

#[test]
fn unknown_ids_fall_back_to_the_mode_file() {
    assert_eq!(current_mode_decision("0x0000", "0x0000", Some("2\n")), Some(2));
    assert_eq!(current_mode_decision("0x0000", "0x0000", Some("bogus")), None);
    assert_eq!(current_mode_decision("0x0000", "0x0000", None), None);
}

#[test]
fn mode_file_parsing() {
    assert_eq!(parse_mode_file("3\n"), Some(3));
    assert_eq!(parse_mode_file(" 1 "), Some(1));
    assert_eq!(parse_mode_file("9\n"), None);
    assert_eq!(parse_mode_file(""), None);
    assert_eq!(parse_mode_file("abc"), None);
}

#[test]
fn mode_config_write_plan() {
    let w = plan_mode_config_write(2, true).unwrap();
    assert_eq!(w.path, "/mnt/data/mode.cfg");
    assert_eq!(w.content, "2\n");
    let w = plan_mode_config_write(3, false).unwrap();
    assert_eq!(w.path, "/mnt/data/mode_tmp.cfg");
    assert_eq!(w.content, "3\n");
    let e = plan_mode_config_write(9, true).unwrap_err();
    assert_eq!(e, "Invalid USB mode: 9. Valid modes: 1=NCM, 2=ECM, 3=RNDIS");
}

#[test]
fn mode_report_assembly() {
    let r = usb_mode_report(Some("0x1782\n"), Some("0x4038\n"), Some("1\n"), Some("2\n"));
    assert_eq!(r.current_mode, Some(3));
    assert_eq!(r.permanent_mode, Some(1));
    assert_eq!(r.temporary_mode, Some(2));
    let r = usb_mode_report(None, Some("0x4038"), Some("1\n"), None);
    assert_eq!(r.current_mode, None);
    assert_eq!(r.permanent_mode, Some(1));
    assert_eq!(r.temporary_mode, None);
}

#[test]
fn identity_derivation() {
    let macs = vec!["aa:bb:cc:dd:ee:ff".to_string()];
    assert_eq!(serial_number_of(&macs), "UDXAABBCCDDEEFF1");
    let macs = vec!["short".to_string(), "00:11:22:33:44:55".to_string()];
    assert_eq!(serial_number_of(&macs), "UDX0011223344551");
    assert_eq!(serial_number_of(&Vec::new()), "UDXDEFAULT000000");
    assert_eq!(hardware_id_of(Some("Spreadtrum UDX710_4h10 Board")), "UDX710");
    assert_eq!(hardware_id_of(Some("some 710 chip")), "U710");
    assert_eq!(hardware_id_of(Some("other")), "UDX7");
    assert_eq!(hardware_id_of(None), "UDX7");
    assert_eq!(generate_product_name("UDXAABBCCDDEEFF1", "UDX710"), "unisoc-5g-modem-UDX71000EFF1");
    assert_eq!(generate_product_name("ab", "M"), "unisoc-5g-modem-M00ab00");
    assert_eq!(host_mac_of("CC:E8:AC:C0:00:00"), "cc:e8:ac:c0:00:01");
}

#[test]
fn switch_plan_rejects_unknown_mode() {
    let e = switch_plan(7, "udc0", "SN", "product").unwrap_err();
    assert_eq!(e, "Invalid USB mode: 7. Valid modes: 1=NCM, 2=ECM, 3=RNDIS, 4=NCM(no ADB)");
}

#[test]
fn switch_plan_follows_the_teardown_rebuild_order() {
    let plan = switch_plan(3, "29100000.dwc3", "SN123", "prod").unwrap();
    assert!(matches!(plan[0], GadgetStep::StopAdbd));
    match &plan[1] {
        GadgetStep::WriteFile(path, content) => {
            assert_eq!(path, "/sys/kernel/config/usb_gadget/g1/UDC");
            assert_eq!(content, "none");
        }
        _ => panic!("the controller must be unbound right after the daemon stops"),
    }
    assert!(matches!(plan[2], GadgetStep::SleepMs(100)));
    // sixteen link removals follow
    for i in 0..16 {
        match &plan[3 + i] {
            GadgetStep::RemoveFileIfPresent(p) => {
                assert_eq!(p, &format!("/sys/kernel/config/usb_gadget/g1/configs/b.1/f{}", i));
            }
            _ => panic!("expected a link removal"),
        }
    }
    // the product id write appears, with the RNDIS id
    let pid_write = plan.iter().position(|s| matches!(
        s,
        GadgetStep::WriteFile(p, c)
            if p.as_str() == "/sys/kernel/config/usb_gadget/g1/idProduct" && c.as_str() == "0x4038"
    ));
    assert!(pid_write.is_some());
    // RNDIS asks for the acceleration hint and USB sharing
    assert!(plan.iter().any(|s| matches!(
        s,
        GadgetStep::WriteFileIfPresent(p, c)
            if p.ends_with("pamu3_protocol") && c.as_str() == "RNDIS"
    )));
    assert!(plan.iter().any(|s| matches!(s, GadgetStep::UsbShare(true))));
    // the controller is rebound after the identity write, then the
    // network comes up
    let udc_rebind = plan.iter().position(|s| matches!(
        s,
        GadgetStep::WriteFile(p, c)
            if p.as_str() == "/sys/kernel/config/usb_gadget/g1/UDC" && c.as_str() == "29100000.dwc3"
    )).unwrap();
    assert!(udc_rebind > pid_write.unwrap());
    assert!(matches!(plan[plan.len() - 1], GadgetStep::ConfigureNetwork));
    assert!(matches!(plan[plan.len() - 2], GadgetStep::SleepMs(1000)));
}

#[test]
fn switch_plan_ecm_skips_the_acceleration_hint() {
    let plan = switch_plan(2, "udc", "SN", "p").unwrap();
    assert!(!plan.iter().any(|s| matches!(
        s,
        GadgetStep::WriteFileIfPresent(p, _) if p.ends_with("pamu3_protocol")
    )));
    assert!(plan.iter().any(|s| matches!(s, GadgetStep::UsbShare(false))));
}

fn props(entries: &[(&str, PropValue)]) -> Vec<(String, PropValue)> {
    entries.iter().map(|(k, v)| ((*k).to_string(), clone_prop(v))).collect()
}

fn clone_prop(v: &PropValue) -> PropValue {
    match v {
        PropValue::Str(s) => PropValue::Str(s.clone()),
        PropValue::Bool(b) => PropValue::Bool(*b),
        PropValue::Byte(b) => PropValue::Byte(*b),
        PropValue::Word(w) => PropValue::Word(*w),
        PropValue::Int(n) => PropValue::Int(*n),
        PropValue::UInt(n) => PropValue::UInt(*n),
        PropValue::StrList(l) => PropValue::StrList(l.clone()),
    }
}

fn s(v: &str) -> PropValue {
    PropValue::Str(v.to_string())
}

#[test]
fn property_accessors_default_on_missing_or_mistyped() {
    let p = props(&[("Name", s("op")), ("Flag", PropValue::Bool(true)), ("N", PropValue::Byte(9))]);
    assert_eq!(prop_get_str(&p, "Name", "dflt"), "op");
    assert_eq!(prop_get_str(&p, "Other", "dflt"), "dflt");
    assert_eq!(prop_get_str(&p, "Flag", "dflt"), "dflt");
    assert!(prop_get_bool(&p, "Flag", false));
    assert!(!prop_get_bool(&p, "Name", false));
}

#[test]
fn sim_info_assembly() {
    let sim = props(&[
        ("Present", PropValue::Bool(true)),
        ("CardIdentifier", s("8986")),
        ("SubscriberIdentity", s("46000")),
        ("MobileCountryCode", s("460")),
        ("MobileNetworkCode", s("00")),
        ("SubscriberNumbers", PropValue::StrList(vec!["+86138".to_string()])),
    ]);
    let msg = props(&[("ServiceCenterAddress", s("+8613800100500"))]);
    let r = sim_info_from_props(&sim, &msg);
    assert!(r.present);
    assert_eq!(r.iccid, "8986");
    assert_eq!(r.imsi, "46000");
    assert_eq!(r.mcc, "460");
    assert_eq!(r.mnc, "00");
    assert_eq!(r.pin_required, "none");
    assert_eq!(r.sms_center, "+8613800100500");
    assert_eq!(r.phone_numbers, vec!["+86138".to_string()]);
    assert!(r.preferred_languages.is_empty());
}

#[test]
fn network_device_airplane_roaming_assembly() {
    let net = props(&[
        ("Name", s("CMCC")),
        ("Status", s("roaming")),
        ("Strength", PropValue::Byte(78)),
        ("MobileCountryCode", s("460")),
    ]);
    let radio = props(&[("TechnologyPreference", s("NR 5G/LTE auto"))]);
    let n = network_info_from_props(&net, &radio);
    assert_eq!(n.operator_name, "CMCC");
    assert_eq!(n.registration_status, "roaming");
    assert_eq!(n.signal_strength, 78);
    assert_eq!(n.mcc.as_deref(), Some("460"));
    assert_eq!(n.mnc, None);

    let modem = props(&[
        ("Serial", s("86999")),
        ("Manufacturer", s("unisoc")),
        ("Model", s("udx710")),
        ("Online", PropValue::Bool(false)),
        ("Powered", PropValue::Bool(true)),
    ]);
    let d = device_info_from_props(&modem);
    assert_eq!(d.imei, "86999");
    assert!(!d.online && d.powered);
    assert_eq!(d.revision, None);

    let a = airplane_mode_from_props(&modem);
    assert!(a.enabled && a.powered && !a.online);

    let cm = props(&[("RoamingAllowed", PropValue::Bool(true))]);
    let r = roaming_status_from_props(&cm, &net);
    assert!(r.roaming_allowed && r.is_roaming);
}

#[test]
fn radio_mode_mapping() {
    assert_eq!(RadioMode::Auto.to_ofono_value(), "NR 5G/LTE auto");
    assert_eq!(RadioMode::LteOnly.to_ofono_value(), "LTE only");
    assert_eq!(RadioMode::NrOnly.to_ofono_value(), "NR 5G only");
    assert!(matches!(RadioMode::from_ofono_value("NR 5G/LTE auto"), Some(RadioMode::Auto)));
    assert!(matches!(RadioMode::from_ofono_value("LTE/GSM/WCDMA auto"), Some(RadioMode::Auto)));
    assert!(matches!(
        RadioMode::from_ofono_value("NR 5G/LTE/GSM/WCDMA auto"),
        Some(RadioMode::Auto)
    ));
    assert!(matches!(RadioMode::from_ofono_value("LTE only"), Some(RadioMode::LteOnly)));
    assert!(matches!(RadioMode::from_ofono_value("NR 5G only"), Some(RadioMode::NrOnly)));
    assert!(RadioMode::from_ofono_value("GSM only").is_none());

    let radio = props(&[("TechnologyPreference", s("LTE only"))]);
    let r = radio_mode_from_props(&radio);
    assert_eq!(r.mode, "lte");
    assert_eq!(r.technology_preference, "LTE only");
    let r = radio_mode_from_props(&props(&[]));
    assert_eq!(r.mode, "unknown");
    assert_eq!(r.technology_preference, "unknown");
}

#[test]
fn internet_context_selection() {
    let ctxs = vec![
        ("/ril_0/context1".to_string(), props(&[("Type", s("mms"))])),
        ("/ril_0/context3".to_string(), props(&[("Type", s("internet"))])),
        (
            "/ril_0/context5".to_string(),
            props(&[("Type", s("internet")), ("AccessPointName", s("cmnet"))]),
        ),
    ];
    // the context with an APN wins even when it is not first
    assert_eq!(find_internet_context(&ctxs), "/ril_0/context5");
    let ctxs = vec![
        ("/ril_0/context1".to_string(), props(&[("Type", s("mms"))])),
        ("/ril_0/context3".to_string(), props(&[("Type", s("internet"))])),
    ];
    assert_eq!(find_internet_context(&ctxs), "/ril_0/context3");
    let ctxs = vec![("/ril_0/context1".to_string(), props(&[("Type", s("mms"))]))];
    assert_eq!(find_internet_context(&ctxs), "/ril_0/context2");
}

#[test]
fn apn_context_listing() {
    let ctxs = vec![
        ("/ril_0/context1".to_string(), props(&[("Type", s("mms"))])),
        (
            "/ril_0/context2".to_string(),
            props(&[
                ("Type", s("internet")),
                ("AccessPointName", s("cmnet")),
                ("Active", PropValue::Bool(true)),
            ]),
        ),
    ];
    let list = apn_contexts_from(&ctxs);
    assert_eq!(list.len(), 1);
    assert_eq!(list[0].path, "/ril_0/context2");
    assert_eq!(list[0].apn, "cmnet");
    assert!(list[0].active);
    assert_eq!(list[0].name, "Internet");
    assert_eq!(list[0].protocol, "ip");
    assert_eq!(list[0].auth_method, "chap");
    assert_eq!(list[0].context_type, "internet");
}

#[test]
fn call_and_operator_entries() {
    let c = call_entry_from_props(
        "/ril_0/voicecall01",
        &props(&[("LineIdentification", s("+31")), ("State", s("incoming"))]),
    );
    assert_eq!(c.direction, "incoming");
    assert_eq!(c.phone_number, "+31");
    assert!(c.start_time.is_none());
    let c = call_entry_from_props("/x", &props(&[("State", s("dialing"))]));
    assert_eq!(c.direction, "outgoing");
    assert_eq!(c.phone_number, "Unknown");

    let o = operator_from_props("/op", &props(&[("Name", s("CMCC"))]));
    assert_eq!(o.name, "CMCC");
    assert_eq!(o.status, "unknown");
    assert!(o.technologies.is_empty());
}

#[test]
fn envelope_and_defaults() {
    let ok: ApiResponse<u32> = ApiResponse::success_with_message("done", 5);
    assert_eq!(ok.status, "ok");
    assert_eq!(ok.message, "done");
    assert_eq!(ok.data, Some(5));
    let err: ApiResponse<u32> = ApiResponse::error("boom");
    assert_eq!(err.status, "error");
    assert!(err.data.is_none());
    assert_eq!(default_nr_rat(), 16);
    assert_eq!(default_page_size(), 50);
    assert_eq!(default_limit(), 50);
    assert_eq!(UsbMode::CdcNcm.mode_number(), 1);
    assert_eq!(UsbMode::Rndis.mode_number(), 3);
}

#[test]
fn band_lock_command_pair_for_nr_selection() {
    // locking NR n77+n78 with no LTE selection: LTE cleared first, then
    // the NR masks
    let (lte, nr) = udx710_core::bands::band_lock_commands(&[], &[], &[], &[77, 78]);
    assert_eq!(lte, "AT+SPLBAND=1,0,0,0,0,0");
    assert_eq!(nr, "AT+SPLBAND=2,0,0,384,0");
}

#[test]
fn serving_cell_reads_decimal_and_hex() {
    let p = props(&[
        ("Technology", s("nr")),
        ("NCellId", s("1A2B")),
        ("TrackingAreaCode", PropValue::UInt(4660)),
    ]);
    let cell = serving_cell_from_props(&p);
    assert_eq!(cell.tech, "nr");
    assert_eq!(cell.cell_id, 0x1A2B);
    assert_eq!(cell.tac, 4660);
    let p = props(&[("CellId", s("12345"))]);
    let cell = serving_cell_from_props(&p);
    assert_eq!(cell.tech, "unknown");
    assert_eq!(cell.cell_id, 12345);
    assert_eq!(cell.tac, 0);
}

#[test]
fn forwarding_and_settings_assemblies() {
    assert_eq!(forwarding_property_name("unconditional"), Some("VoiceUnconditional"));
    assert_eq!(forwarding_property_name("busy"), Some("VoiceBusy"));
    assert_eq!(forwarding_property_name("noreply"), Some("VoiceNoReply"));
    assert_eq!(forwarding_property_name("notreachable"), Some("VoiceNotReachable"));
    assert_eq!(forwarding_property_name("sometimes"), None);

    let f = call_forwarding_from_props(&props(&[("VoiceBusy", s("+31"))]));
    assert_eq!(f.voice_busy, "+31");
    assert_eq!(f.voice_no_reply_timeout, 20);
    assert!(!f.forwarding_flag_on_sim);

    let v = call_volume_from_props(&props(&[("SpeakerVolume", PropValue::Byte(60))]));
    assert_eq!(v.speaker_volume, 60);
    assert!(!v.muted);

    let m = voicemail_from_props(&props(&[("VoicemailWaiting", PropValue::Bool(true))]));
    assert!(m.waiting);
    assert_eq!(m.message_count, 0);
    assert_eq!(m.mailbox_number, "");

    let i = ims_status_from_props(&props(&[("Registered", PropValue::Bool(true))]));
    assert!(i.registered && !i.voice_capable && !i.sms_capable);

    let cs = call_settings_from_props(&props(&[("HideCallerId", s("enabled"))]));
    assert_eq!(cs.hide_caller_id, "enabled");
    assert_eq!(cs.voice_call_waiting, "unknown");
}

#[test]
fn usb_share_toggle_command() {
    assert_eq!(
        udx710_core::usb::usb_share_command(true),
        "AT+SPASENGMD=\"#dsm_usb_share_enable\",1"
    );
    assert_eq!(
        udx710_core::usb::usb_share_command(false),
        "AT+SPASENGMD=\"#dsm_usb_share_enable\",0"
    );
}

#[test]
fn dialed_call_entry() {
    let c = udx710_core::modem::dialed_call_info(
        "/ril_0/voicecall01",
        "+31",
        "2024-01-01T00:00:00Z".to_string(),
    );
    assert_eq!(c.state, "dialing");
    assert_eq!(c.direction, "outgoing");
    assert_eq!(c.phone_number, "+31");
    assert_eq!(c.start_time.as_deref(), Some("2024-01-01T00:00:00Z"));
}
