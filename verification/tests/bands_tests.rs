use udx710_core::bands::{bands_to_bitmask, bitmask_to_bands, build_splband_lte_command,
    build_splband_nr_command, parse_splband_lte_response, parse_splband_nr_response};

#[test]
fn lte_fdd_encode_known_bands() {
    // B1 + B3 + B8 = 1 + 4 + 128
    assert_eq!(bands_to_bitmask(&[1, 3, 8], 1), 133);
}

#[test]
fn lte_fdd_encode_out_of_range_is_zero() {
    assert_eq!(bands_to_bitmask(&[17], 1), 0);
    assert_eq!(bands_to_bitmask(&[0], 1), 0);
}

#[test]
fn lte_tdd_encode() {
    // B39 + B41 = bit 6 + bit 8 = 64 + 256
    assert_eq!(bands_to_bitmask(&[39, 41], 33), 320);
}

#[test]
fn nr_fdd_encode_vendor_table() {
    // n1 + n3 + n28 = 1 + 4 + 512
    assert_eq!(bands_to_bitmask(&[1, 3, 28], 100), 517);
}

#[test]
fn nr_tdd_encode_vendor_table() {
    assert_eq!(bands_to_bitmask(&[77, 78], 41), 384);
    // n41 + n78 + n79 = 0x10 + 0x100 + 0x200
    assert_eq!(bands_to_bitmask(&[41, 78, 79], 41), 784);
}

#[test]
fn unknown_base_encodes_to_zero() {
    assert_eq!(bands_to_bitmask(&[1, 2, 3], 7), 0);
}

#[test]
fn lte_fdd_decode() {
    assert_eq!(bitmask_to_bands(133, 1), vec![1, 3, 8]);
}

#[test]
fn lte_fdd_decode_full_mask() {
    let all: Vec<u8> = (1..=16).collect();
    assert_eq!(bitmask_to_bands(0xFFFF, 1), all);
}

#[test]
fn nr_decode_vendor_tables() {
    assert_eq!(bitmask_to_bands(517, 100), vec![1, 3, 28]);
    assert_eq!(bitmask_to_bands(384, 41), vec![77, 78]);
}

#[test]
fn unknown_base_decodes_empty() {
    assert_eq!(bitmask_to_bands(0xFFFF, 9), Vec::<u8>::new());
}

#[test]
fn round_trip_sorts_and_dedups() {
    let mask = bands_to_bitmask(&[8, 3, 1, 3], 1);
    assert_eq!(bitmask_to_bands(mask, 1), vec![1, 3, 8]);
    let mask = bands_to_bitmask(&[79, 41, 78], 41);
    assert_eq!(bitmask_to_bands(mask, 41), vec![41, 78, 79]);
}

#[test]
fn build_lte_command() {
    assert_eq!(build_splband_lte_command(5, 320), "AT+SPLBAND=1,0,320,0,5,0");
    assert_eq!(build_splband_lte_command(0, 0), "AT+SPLBAND=1,0,0,0,0,0");
}

#[test]
fn build_nr_command() {
    assert_eq!(build_splband_nr_command(1, 256), "AT+SPLBAND=2,1,0,256,0");
    assert_eq!(build_splband_nr_command(0, 384), "AT+SPLBAND=2,0,0,384,0");
}

#[test]
fn parse_lte_response() {
    let (fdd, tdd) = parse_splband_lte_response("+SPLBAND: 0,320,0,149,0\r\nOK");
    assert_eq!((fdd, tdd), (149, 320));
}

#[test]
fn parse_nr_response() {
    let (fdd, tdd) = parse_splband_nr_response("+SPLBAND: 1,0,256,0\r\nOK");
    assert_eq!((fdd, tdd), (1, 256));
}

#[test]
fn parse_response_without_marker_is_zero() {
    assert_eq!(parse_splband_lte_response("ERROR"), (0, 0));
    assert_eq!(parse_splband_nr_response(""), (0, 0));
}

#[test]
fn parse_response_short_marker_line_is_skipped() {
    assert_eq!(parse_splband_lte_response("+SPLBAND: 1,2\r\nOK"), (0, 0));
}

#[test]
fn nr_band_lock_read_back() {
    // locking NR n77+n78 encodes to 384; the read-back reply decodes to
    // the same bands
    let mask = bands_to_bitmask(&[77, 78], 41);
    assert_eq!(build_splband_nr_command(0, mask), "AT+SPLBAND=2,0,0,384,0");
    let (fdd, tdd) = parse_splband_nr_response("+SPLBAND: 0,0,384,0");
    assert_eq!((fdd, tdd), (0, 384));
    assert_eq!(bitmask_to_bands(tdd, 41), vec![77, 78]);
}
