use udx710_core::atresp::parse_at_response_to_2d_vec;
use udx710_core::cells::{get_cell_command_config, arfcn_to_nr_band, earfcn_to_lte_band,
    parse_primary_cell, parse_neighbor_cells};
use udx710_core::modem::{parse_qos_response, parse_sim_slot_response, build_sim_slot_command};

fn rows(data: &[&[&str]]) -> Vec<Vec<String>> {
    data.iter().map(|r| r.iter().map(|s| s.to_string()).collect()).collect()
}

#[test]
fn empty_reply_parses_to_empty() {
    assert_eq!(parse_at_response_to_2d_vec(""), Vec::<Vec<String>>::new());
}

#[test]
fn trailing_ok_and_crlf_are_trimmed() {
    let parsed = parse_at_response_to_2d_vec("1,2-3,4\r\nOK");
    assert_eq!(parsed, rows(&[&["1", "2"], &["3", "4"]]));
}

#[test]
fn repeated_ok_suffixes_are_all_trimmed() {
    let parsed = parse_at_response_to_2d_vec("7,8OKOK");
    assert_eq!(parsed, rows(&[&["7", "8"]]));
}

#[test]
fn minus_after_comma_is_a_sign() {
    let parsed = parse_at_response_to_2d_vec("1,-5-2,3");
    assert_eq!(parsed, rows(&[&["1", "-5"], &["2", "3"]]));
}

#[test]
fn double_minus_keeps_a_literal_minus() {
    let parsed = parse_at_response_to_2d_vec("a--b,c");
    assert_eq!(parsed, rows(&[&["a"], &["-b", "c"]]));
}

#[test]
fn rows_are_trimmed_except_the_last() {
    let parsed = parse_at_response_to_2d_vec(" 1 , 2 - 3,4");
    assert_eq!(parsed, rows(&[&["1 ", " 2"], &[" 3", "4"]]));
}

#[test]
fn cell_commands_per_technology() {
    let nr = get_cell_command_config("nr").unwrap();
    assert_eq!(nr.primary, "AT+SPENGMD=0,14,1");
    assert_eq!(nr.neighbor, "AT+SPENGMD=0,14,2");
    let lte = get_cell_command_config("lte").unwrap();
    assert_eq!(lte.primary, "AT+SPENGMD=0,6,0");
    assert_eq!(lte.neighbor, "AT+SPENGMD=0,6,6");
    assert!(get_cell_command_config("umts").is_none());
}

#[test]
fn nr_band_from_arfcn() {
    assert_eq!(arfcn_to_nr_band(504990), "n41");
    assert_eq!(arfcn_to_nr_band(630000), "n78");
    assert_eq!(arfcn_to_nr_band(1), "");
}

#[test]
fn lte_band_from_earfcn() {
    assert_eq!(earfcn_to_lte_band(1300), "B3");
    assert_eq!(earfcn_to_lte_band(40000), "B41");
    assert_eq!(earfcn_to_lte_band(99999), "");
}

#[test]
fn primary_cell_nr() {
    let mut data: Vec<Vec<String>> = (0..16).map(|i| vec![format!("{}", i)]).collect();
    data[0] = vec!["41".to_string()];
    data[1] = vec!["504990".to_string()];
    let cell = parse_primary_cell("nr", &data);
    assert!(cell.is_serving);
    assert_eq!(cell.tech, "nr");
    assert_eq!(cell.band, "n41");
    assert_eq!(cell.arfcn, "504990");
    assert_eq!(cell.pci, "2");
    assert_eq!(cell.rsrp, "3");
    assert_eq!(cell.rsrq, "4");
    assert_eq!(cell.sinr, "15");
}

#[test]
fn primary_cell_short_reply_is_empty() {
    let data = rows(&[&["41"], &["504990"]]);
    let cell = parse_primary_cell("nr", &data);
    assert!(cell.is_serving);
    assert_eq!(cell.tech, "");
    assert_eq!(cell.band, "");
}

#[test]
fn primary_cell_zero_band_keeps_no_prefix() {
    let mut data: Vec<Vec<String>> = (0..16).map(|i| vec![format!("{}", i)]).collect();
    data[0] = vec!["0".to_string()];
    let cell = parse_primary_cell("nr", &data);
    assert_eq!(cell.band, "0");
}

#[test]
fn neighbor_cells_nr_stop_at_zero_pair() {
    // column-wise: three candidate cells, the third reads (0, 0)
    let data = rows(&[
        &["0", "41", "0"],
        &["504990", "505000", "0"],
        &["101", "102", "0"],
        &["-90", "-95", "0"],
        &["-10", "-11", "0"],
        &["20", "21", "0"],
    ]);
    let cells = parse_neighbor_cells("nr", &data);
    assert_eq!(cells.len(), 2);
    assert_eq!(cells[0].band, "n41");  // derived from the channel
    assert_eq!(cells[0].arfcn, "504990");
    assert_eq!(cells[0].pci, "101");
    assert_eq!(cells[0].rsrp, "-90");
    assert!(!cells[0].is_serving);
    assert_eq!(cells[1].band, "41");  // reported directly
    assert_eq!(cells[1].sinr, "21");
}

#[test]
fn neighbor_cells_lte_rows() {
    let data = rows(&[
        &["1300", "200", "-100", "-12"],
        &["x"],
        &["1300", "201", "-101", "-13", "0", "0", "0", "0", "0", "0", "0", "0", "3"],
        &["0", "0", "0", "0"],
        &["1300", "999", "-90", "-9"],
    ]);
    let cells = parse_neighbor_cells("lte", &data);
    assert_eq!(cells.len(), 2);
    assert_eq!(cells[0].band, "B3");
    assert_eq!(cells[0].sinr, "-");
    assert_eq!(cells[1].band, "3");
}

#[test]
fn neighbor_cells_unknown_technology() {
    let data = rows(&[&["1", "2", "3", "4"]]);
    assert_eq!(parse_neighbor_cells("umts", &data).len(), 0);
}

#[test]
fn qos_reply_parses_rates() {
    let r = parse_qos_response("+CGEQOSRDP: 11,5,0,0,0,0,30000,30000\r\nOK");
    assert_eq!(r.qci, 5);
    assert_eq!(r.dl_speed, 30000);
    assert_eq!(r.ul_speed, 30000);
    assert!(r.raw_response.is_none());
}

#[test]
fn qos_reply_prefers_guaranteed_rate() {
    let r = parse_qos_response("+CGEQOSRDP: 11,9,1000,2000,5000,6000,30000,30000");
    assert_eq!(r.dl_speed, 1000);
    assert_eq!(r.ul_speed, 2000);
}

#[test]
fn qos_unreadable_reply_is_echoed() {
    let r = parse_qos_response("ERROR");
    assert_eq!(r.qci, 0);
    assert_eq!(r.dl_speed, 0);
    assert_eq!(r.raw_response.as_deref(), Some("ERROR"));
}

#[test]
fn sim_slot_reply() {
    let r = parse_sim_slot_response("+SPCONFIGSIMSLOT: 66051\r\nOK");
    assert_eq!(r.active_slot, 1);
    assert_eq!(r.raw_value, "66051");
    let r = parse_sim_slot_response("+SPCONFIGSIMSLOT: 66306");
    assert_eq!(r.active_slot, 2);
    let r = parse_sim_slot_response("garbage");
    assert_eq!(r.active_slot, 0);
    assert_eq!(r.raw_value, "");
}

#[test]
fn sim_slot_commands() {
    assert_eq!(build_sim_slot_command(1).as_deref(), Some("AT+SPCONFIGSIMSLOT=66051"));
    assert_eq!(build_sim_slot_command(2).as_deref(), Some("AT+SPCONFIGSIMSLOT=66306"));
    assert!(build_sim_slot_command(3).is_none());
}
