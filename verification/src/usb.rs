//! USB gadget composition: mode tables, persisted mode preference, the
//! device identity strings, and the hot-switch plan.
//!
//! A switch tears the gadget tree down and rebuilds it under configfs in
//! a strict order.  This module decides every step and its exact path
//! and contents; executing the writes, removals and waits is the
//! shell's job.

use vstd::prelude::*;
use crate::text::{spec_trim, spec_to_lower, spec_to_upper, spec_split, spec_find, spec_parse_u64,
    dec_digits, str_eq, chars_of, string_of, trim_chars, to_lower_chars, to_upper_chars,
    split_chars, find_subseq, append_str, push_dec_u64, parse_u64_bounded, lemma_nested_view};

verus! {

/// The composition of one USB mode.
pub struct UsbModeConfig {
    pub vid: &'static str,
    pub pid: &'static str,
    pub configuration: &'static str,
    pub pamu3_protocol: Option<&'static str>,
    pub functions: &'static str,
    pub bcd_device: &'static str,
    pub usb_share_enable: bool,
}

impl UsbModeConfig {
    /// The composition table: 1 = NCM, 2 = ECM, 3 = RNDIS.  NCM and
    /// RNDIS carry a hardware-acceleration protocol hint; only RNDIS
    /// turns USB sharing on.
    pub fn get(mode: u8) -> (r: Option<UsbModeConfig>)
        ensures
            r is Some <==> 1 <= mode <= 3,
            mode == 1 ==> {
                let c = r->0;
                c.vid@ == "0x1782"@ && c.pid@ == "0x4040"@ && c.configuration@ == "ncm"@
                    && c.pamu3_protocol is Some && c.pamu3_protocol->0@ == "NCM"@
                    && c.functions@ == "ncm.gs0"@ && c.bcd_device@ == "0x0404"@
                    && !c.usb_share_enable
            },
            mode == 2 ==> {
                let c = r->0;
                c.vid@ == "0x1782"@ && c.pid@ == "0x4039"@ && c.configuration@ == "ecm"@
                    && c.pamu3_protocol is None && c.functions@ == "ecm.gs0"@ && c.bcd_device@
                    == "0x0404"@ && !c.usb_share_enable
            },
            mode == 3 ==> {
                let c = r->0;
                c.vid@ == "0x1782"@ && c.pid@ == "0x4038"@ && c.configuration@ == "rndis"@
                    && c.pamu3_protocol is Some && c.pamu3_protocol->0@ == "RNDIS"@
                    && c.functions@ == "rndis.gs4"@ && c.bcd_device@ == "0x0404"@
                    && c.usb_share_enable
            },
    {
        if mode == 1 {
            Some(UsbModeConfig {
                vid: "0x1782",
                pid: "0x4040",
                configuration: "ncm",
                pamu3_protocol: Some("NCM"),
                functions: "ncm.gs0",
                bcd_device: "0x0404",
                usb_share_enable: false,
            })
        } else if mode == 2 {
            Some(UsbModeConfig {
                vid: "0x1782",
                pid: "0x4039",
                configuration: "ecm",
                pamu3_protocol: None,
                functions: "ecm.gs0",
                bcd_device: "0x0404",
                usb_share_enable: false,
            })
        } else if mode == 3 {
            Some(UsbModeConfig {
                vid: "0x1782",
                pid: "0x4038",
                configuration: "rndis",
                pamu3_protocol: Some("RNDIS"),
                functions: "rndis.gs4",
                bcd_device: "0x0404",
                usb_share_enable: true,
            })
        } else {
            None
        }
    }
}

/// The mode a vendor/product id pair denotes, with the extra product
/// ids some firmware revisions use.
pub open spec fn spec_mode_from_ids(vid: Seq<char>, pid: Seq<char>) -> Option<u8> {
    if vid == "0x1782"@ {
        if pid == "0x4040"@ || pid == "0x4107"@ || pid == "0x4105"@ || pid == "0x4103"@ || pid
            == "0x4101"@ {
            Some(1u8)
        } else if pid == "0x4039"@ || pid == "0x4106"@ || pid == "0x4104"@ || pid == "0x4102"@
            || pid == "0x4100"@ {
            Some(2u8)
        } else if pid == "0x4038"@ {
            Some(3u8)
        } else {
            None
        }
    } else if vid == "0x3426"@ && pid == "0x2999"@ {
        Some(1u8)
    } else {
        None
    }
}

/// Map a vendor/product id pair to a mode.
pub fn mode_from_ids(vid: &str, pid: &str) -> (r: Option<u8>)
    ensures
        r == spec_mode_from_ids(vid@, pid@),
{
    if str_eq(vid, "0x1782") {
        if str_eq(pid, "0x4040") || str_eq(pid, "0x4107") || str_eq(pid, "0x4105") || str_eq(
            pid,
            "0x4103",
        ) || str_eq(pid, "0x4101") {
            Some(1)
        } else if str_eq(pid, "0x4039") || str_eq(pid, "0x4106") || str_eq(pid, "0x4104")
            || str_eq(pid, "0x4102") || str_eq(pid, "0x4100") {
            Some(2)
        } else if str_eq(pid, "0x4038") {
            Some(3)
        } else {
            None
        }
    } else if str_eq(vid, "0x3426") && str_eq(pid, "0x2999") {
        Some(1)
    } else {
        None
    }
}

/// A persisted mode digit: the trimmed file content read as a number in
/// 1..=3.
pub open spec fn spec_parse_mode_file(content: Seq<char>) -> Option<u8> {
    match spec_parse_u64(spec_trim(content), 256) {
        Some(v) => if 1 <= v <= 3 {
            Some(v as u8)
        } else {
            None
        },
        None => None,
    }
}

/// Read a persisted mode file's content.
pub fn parse_mode_file(content: &str) -> (r: Option<u8>)
    ensures
        r == spec_parse_mode_file(content@),
{
    let cs = chars_of(content);
    let t = trim_chars(&cs);
    match parse_u64_bounded(&t, 256) {
        Some(v) => {
            if 1 <= v && v <= 3 {
                Some(v as u8)
            } else {
                None
            }
        },
        None => None,
    }
}

/// The live mode derived from the configfs ids, falling back to the
/// persisted preference when the pair is unknown.
pub open spec fn spec_current_mode(vid_raw: Seq<char>, pid_raw: Seq<char>,
    fallback: Option<Seq<char>>) -> Option<u8> {
    match spec_mode_from_ids(
        spec_to_lower(spec_trim(vid_raw)),
        spec_to_lower(spec_trim(pid_raw)),
    ) {
        Some(m) => Some(m),
        None => match fallback {
            Some(c) => spec_parse_mode_file(c),
            None => None,
        },
    }
}

/// Decide the current mode from the raw configfs reads and, when those
/// denote no known pair, from the permanent mode file's content.
pub fn current_mode_decision(vid_raw: &str, pid_raw: &str, fallback: Option<&str>) -> (r:
    Option<u8>)
    ensures
        r == spec_current_mode(vid_raw@, pid_raw@, (match fallback {
            Some(c) => Some(c@),
            None => None::<Seq<char>>,
        })),
{
    let vid = string_of(&to_lower_chars(&trim_chars(&chars_of(vid_raw))));
    let pid = string_of(&to_lower_chars(&trim_chars(&chars_of(pid_raw))));
    match mode_from_ids(vid.as_str(), pid.as_str()) {
        Some(m) => Some(m),
        None => match fallback {
            Some(c) => parse_mode_file(c),
            None => None,
        },
    }
}

pub const USB_MODE_PERMANENT_FILE: &'static str = "/mnt/data/mode.cfg";

pub const USB_MODE_TEMPORARY_FILE: &'static str = "/mnt/data/mode_tmp.cfg";

/// A planned write of a persisted mode preference.
#[derive(Debug)]
pub struct ModeConfigWrite {
    pub path: &'static str,
    pub content: String,
}

/// Plan the persisted-preference write: a digit plus newline into the
/// permanent or the temporary file; modes outside 1..=3 are rejected
/// with a message and no write.
pub fn plan_mode_config_write(mode: u8, permanent: bool) -> (r: Result<ModeConfigWrite, String>)
    ensures
        r is Ok <==> 1 <= mode <= 3,
        r is Ok ==> r->Ok_0.path@ == (if permanent {
            "/mnt/data/mode.cfg"@
        } else {
            "/mnt/data/mode_tmp.cfg"@
        }),
        r is Ok ==> r->Ok_0.content@ == dec_digits(mode as nat) + "\n"@,
        r is Err ==> r->Err_0@ == "Invalid USB mode: "@ + dec_digits(mode as nat)
            + ". Valid modes: 1=NCM, 2=ECM, 3=RNDIS"@,
{
    if mode < 1 || mode > 3 {
        let mut msg: Vec<char> = Vec::new();
        append_str(&mut msg, "Invalid USB mode: ");
        push_dec_u64(&mut msg, mode as u64);
        append_str(&mut msg, ". Valid modes: 1=NCM, 2=ECM, 3=RNDIS");
        return Err(string_of(&msg));
    }
    let mut content: Vec<char> = Vec::new();
    push_dec_u64(&mut content, mode as u64);
    append_str(&mut content, "\n");
    let path = if permanent {
        USB_MODE_PERMANENT_FILE
    } else {
        USB_MODE_TEMPORARY_FILE
    };
    proof {
        if permanent {
            assert(path@ == "/mnt/data/mode.cfg"@);
        }
    }
    Ok(ModeConfigWrite { path, content: string_of(&content) })
}

/// The combined mode report: the live mode and both persisted
/// preferences, from whatever reads succeeded.
pub struct UsbModeConfigResult {
    pub current_mode: Option<u8>,
    pub permanent_mode: Option<u8>,
    pub temporary_mode: Option<u8>,
}

/// The live mode as a plain value.
pub struct UsbModeResult {
    pub mode: u8,
}

/// Assemble the mode report from the raw reads: the live pair (when
/// both ids were readable) with the permanent file as fallback, and the
/// two preference files.
pub fn usb_mode_report(vid_raw: Option<&str>, pid_raw: Option<&str>, permanent: Option<&str>,
    temporary: Option<&str>) -> (r: UsbModeConfigResult)
    ensures
        r.current_mode == (match (vid_raw, pid_raw) {
            (Some(v), Some(p)) => spec_current_mode(v@, p@, (match permanent {
                Some(c) => Some(c@),
                None => None::<Seq<char>>,
            })),
            _ => None::<u8>,
        }),
        r.permanent_mode == (match permanent {
            Some(c) => spec_parse_mode_file(c@),
            None => None::<u8>,
        }),
        r.temporary_mode == (match temporary {
            Some(c) => spec_parse_mode_file(c@),
            None => None::<u8>,
        }),
{
    let current_mode = match (vid_raw, pid_raw) {
        (Some(v), Some(p)) => current_mode_decision(v, p, permanent),
        _ => None,
    };
    let permanent_mode = match permanent {
        Some(c) => parse_mode_file(c),
        None => None,
    };
    let temporary_mode = match temporary {
        Some(c) => parse_mode_file(c),
        None => None,
    };
    UsbModeConfigResult { current_mode, permanent_mode, temporary_mode }
}

/// The ids a switch to the given mode writes into configfs.
pub open spec fn spec_mode_ids(mode: u8) -> (Seq<char>, Seq<char>) {
    if mode == 1 {
        ("0x1782"@, "0x4040"@)
    } else if mode == 2 {
        ("0x1782"@, "0x4039"@)
    } else {
        ("0x1782"@, "0x4038"@)
    }
}

/// A sequence with neither leading nor trailing whitespace trims to
/// itself.
proof fn lemma_trim_clean(s: Seq<char>)
    requires
        s.len() > 0,
        !crate::text::is_space(s[0]),
        !crate::text::is_space(s[s.len() - 1]),
    ensures
        spec_trim(s) == s,
{
    assert(crate::text::leading_spaces(s) == 0);
    assert(crate::text::trailing_spaces(s) == 0);
    assert(s.subrange(0, s.len() as int) =~= s);
}

/// A sequence without ASCII capitals lowers to itself.
proof fn lemma_lower_clean(s: Seq<char>)
    requires
        forall|i: int| 0 <= i < s.len() ==> !('A' <= #[trigger] s[i] && s[i] <= 'Z'),
    ensures
        spec_to_lower(s) == s,
{
    assert(spec_to_lower(s) =~= s);
}

/// The share-toggle AT command a mode needs, written to the control
/// character device during a switch.
pub open spec fn spec_usb_share_command(enable: bool) -> Seq<char> {
    if enable {
        "AT+SPASENGMD=\"#dsm_usb_share_enable\",1"@
    } else {
        "AT+SPASENGMD=\"#dsm_usb_share_enable\",0"@
    }
}

/// Build the share-toggle AT command.
pub fn usb_share_command(enable: bool) -> (r: String)
    ensures
        r@ == spec_usb_share_command(enable),
{
    if enable {
        String::from_str("AT+SPASENGMD=\"#dsm_usb_share_enable\",1")
    } else {
        String::from_str("AT+SPASENGMD=\"#dsm_usb_share_enable\",0")
    }
}

/// A MAC address with its separators removed.
pub open spec fn remove_colons(s: Seq<char>) -> Seq<char>
    decreases s.len(),
{
    if s.len() == 0 {
        Seq::empty()
    } else {
        remove_colons(s.drop_last()) + (if s[s.len() - 1] == ':' {
            Seq::<char>::empty()
        } else {
            seq![s[s.len() - 1]]
        })
    }
}

/// The serial number a MAC yields: `UDX`, the first twelve cleaned hex
/// digits uppercased, and a trailing `1`; nothing for a short MAC.
pub open spec fn spec_serial_from_mac(mac: Seq<char>) -> Option<Seq<char>> {
    let m = spec_to_upper(remove_colons(spec_trim(mac)));
    if m.len() >= 12 {
        Some("UDX"@ + m.take(12) + "1"@)
    } else {
        None
    }
}

/// The serial number from an interface MAC list: the first usable MAC
/// wins; with none, a fixed default.
pub open spec fn spec_serial_number(macs: Seq<Seq<char>>) -> Seq<char>
    decreases macs.len(),
{
    if macs.len() == 0 {
        "UDXDEFAULT000000"@
    } else {
        match spec_serial_from_mac(macs[0]) {
            Some(s) => s,
            None => spec_serial_number(macs.drop_first()),
        }
    }
}

/// Derive the device serial from the first usable interface MAC.
pub fn serial_number_of(macs: &Vec<String>) -> (r: String)
    ensures
        r@ == spec_serial_number(macs.deep_view()),
{
    let ghost all = macs.deep_view();
    proof {
        crate::text::lemma_string_vec_view(macs);
        assert(all.skip(0) =~= all);
    }
    let mut i: usize = 0;
    while i < macs.len()
        invariant
            0 <= i <= macs@.len(),
            all == macs.deep_view(),
            macs@.len() == all.len(),
            forall|j: int| 0 <= j < macs@.len() ==> #[trigger] macs@[j]@ == all[j],
            spec_serial_number(all) == spec_serial_number(all.skip(i as int)),
        decreases macs@.len() - i,
    {
        proof {
            assert(all.skip(i as int).drop_first() =~= all.skip(i + 1));
            assert(all.skip(i as int)[0] == all[i as int]);
        }
        let trimmed = trim_chars(&chars_of(macs[i].as_str()));
        let mut cleaned: Vec<char> = Vec::new();
        let mut k: usize = 0;
        assert(cleaned@ =~= remove_colons(trimmed@.take(0)));
        while k < trimmed.len()
            invariant
                0 <= k <= trimmed@.len(),
                cleaned@ == remove_colons(trimmed@.take(k as int)),
            decreases trimmed@.len() - k,
        {
            proof {
                assert(trimmed@.take(k + 1).drop_last() =~= trimmed@.take(k as int));
                assert(trimmed@.take(k + 1)[k as int] == trimmed@[k as int]);
            }
            if trimmed[k] != ':' {
                cleaned.push(trimmed[k]);
            }
            assert(cleaned@ =~= remove_colons(trimmed@.take(k + 1)));
            k = k + 1;
        }
        proof {
            assert(trimmed@.take(trimmed@.len() as int) =~= trimmed@);
        }
        let upper = to_upper_chars(&cleaned);
        if upper.len() >= 12 {
            let mut out: Vec<char> = Vec::new();
            append_str(&mut out, "UDX");
            let mut l: usize = 0;
            while l < 12
                invariant
                    0 <= l <= 12,
                    upper@.len() >= 12,
                    out@ == "UDX"@ + upper@.take(l as int),
                decreases 12 - l,
            {
                out.push(upper[l]);
                assert(out@ =~= "UDX"@ + upper@.take(l + 1));
                l = l + 1;
            }
            append_str(&mut out, "1");
            proof {
                assert(out@ =~= "UDX"@ + upper@.take(12) + "1"@);
            }
            return string_of(&out);
        }
        i = i + 1;
    }
    proof {
        assert(all.skip(all.len() as int) =~= Seq::<Seq<char>>::empty());
    }
    String::from_str("UDXDEFAULT000000")
}

/// A prefix with its underscores removed.
pub open spec fn remove_underscores(s: Seq<char>) -> Seq<char>
    decreases s.len(),
{
    if s.len() == 0 {
        Seq::empty()
    } else {
        remove_underscores(s.drop_last()) + (if s[s.len() - 1] == '_' {
            Seq::<char>::empty()
        } else {
            seq![s[s.len() - 1]]
        })
    }
}

/// The fallback when no `UDX` marker names the model: `U710` for boards
/// that still name the chip, else a fixed default.
pub open spec fn spec_model_fallback(m: Seq<char>) -> Seq<char> {
    if spec_find(m, "710"@) is Some {
        "U710"@
    } else {
        "UDX7"@
    }
}

/// The hardware model id read out of the device-tree model string: the
/// seven characters from the `UDX` marker without underscores, or six
/// when no more follow, with fallbacks for unmarked boards.
pub open spec fn spec_hardware_id(model: Option<Seq<char>>) -> Seq<char> {
    match model {
        None => "UDX7"@,
        Some(raw) => {
            let m = spec_to_upper(spec_trim(raw));
            match spec_find(m, "UDX"@) {
                Some(pos) => {
                    let rest = m.skip(pos);
                    if rest.len() >= 7 {
                        remove_underscores(rest.take(7))
                    } else if rest.len() >= 6 {
                        rest.take(6)
                    } else {
                        spec_model_fallback(m)
                    }
                },
                None => spec_model_fallback(m),
            }
        },
    }
}

/// Derive the hardware model id from the device-tree model string.
pub fn hardware_id_of(model: Option<&str>) -> (r: String)
    ensures
        r@ == spec_hardware_id(match model {
            Some(s) => Some(s@),
            None => None::<Seq<char>>,
        }),
{
    let raw = match model {
        Some(s) => s,
        None => {
            return String::from_str("UDX7");
        },
    };
    let m = to_upper_chars(&trim_chars(&chars_of(raw)));
    let marker = chars_of("UDX");
    match find_subseq(&m, &marker) {
        Some(pos) => {
            let rest_len = m.len() - pos;
            let ghost rest = m@.skip(pos as int);
            if rest_len >= 7 {
                let mut out: Vec<char> = Vec::new();
                let mut k: usize = 0;
                assert(out@ =~= remove_underscores(rest.take(0)));
                while k < 7
                    invariant
                        0 <= k <= 7,
                        pos + 7 <= m@.len(),
                        m@.len() <= usize::MAX,
                        rest == m@.skip(pos as int),
                        out@ == remove_underscores(rest.take(7).take(k as int)),
                    decreases 7 - k,
                {
                    proof {
                        assert(rest.take(7).take(k + 1).drop_last() =~= rest.take(7).take(
                            k as int,
                        ));
                        assert(rest.take(7).take(k + 1)[k as int] == m@[pos + k]);
                    }
                    let c = m[pos + k];
                    if c != '_' {
                        out.push(c);
                    }
                    assert(out@ =~= remove_underscores(rest.take(7).take(k + 1)));
                    k = k + 1;
                }
                proof {
                    assert(rest.take(7).take(7) =~= rest.take(7));
                }
                string_of(&out)
            } else if rest_len >= 6 {
                let mut out: Vec<char> = Vec::new();
                let mut k: usize = 0;
                while k < 6
                    invariant
                        0 <= k <= 6,
                        pos + 6 <= m@.len(),
                        m@.len() <= usize::MAX,
                        rest == m@.skip(pos as int),
                        out@ == rest.take(6).take(k as int),
                    decreases 6 - k,
                {
                    out.push(m[pos + k]);
                    assert(out@ =~= rest.take(6).take(k + 1));
                    k = k + 1;
                }
                proof {
                    assert(rest.take(6).take(6) =~= rest.take(6));
                }
                string_of(&out)
            } else {
                model_fallback(&m)
            }
        },
        None => model_fallback(&m),
    }
}

/// The fallback model id for a string without the `UDX` marker.
fn model_fallback(m: &Vec<char>) -> (r: String)
    ensures
        r@ == spec_model_fallback(m@),
{
    let chip = chars_of("710");
    if crate::text::contains_subseq(m, &chip) {
        String::from_str("U710")
    } else {
        String::from_str("UDX7")
    }
}

/// The gadget product string: a fixed prefix, the model id, `00`, and
/// the serial's last four characters (zero-padded on the right for a
/// short serial).
pub open spec fn spec_product_name(sn: Seq<char>, model_id: Seq<char>) -> Seq<char> {
    let suffix = if sn.len() >= 4 {
        sn.skip(sn.len() - 4)
    } else {
        (sn + "0000"@).take(4)
    };
    "unisoc-5g-modem-"@ + model_id + "00"@ + suffix
}

/// Build the gadget product string from the serial and model id.
pub fn generate_product_name(sn: &str, model_id: &str) -> (r: String)
    ensures
        r@ == spec_product_name(sn@, model_id@),
{
    proof {
        reveal_strlit("0000");
        assert("0000"@.len() == 4);
        assert("0000"@[0] == '0' && "0000"@[1] == '0' && "0000"@[2] == '0' && "0000"@[3]
            == '0');
    }
    let snv = chars_of(sn);
    let mut out: Vec<char> = Vec::new();
    append_str(&mut out, "unisoc-5g-modem-");
    append_str(&mut out, model_id);
    append_str(&mut out, "00");
    let ghost head = "unisoc-5g-modem-"@ + model_id@ + "00"@;
    if snv.len() >= 4 {
        let start = snv.len() - 4;
        let mut k: usize = 0;
        while k < 4
            invariant
                0 <= k <= 4,
                snv@.len() >= 4,
                snv@.len() <= usize::MAX,
                start == snv@.len() - 4,
                out@ == head + snv@.skip(start as int).take(k as int),
            decreases 4 - k,
        {
            proof {
                assert(start + k < snv@.len());
            }
            out.push(snv[start + k]);
            assert(out@ =~= head + snv@.skip(start as int).take(k + 1));
            k = k + 1;
        }
        proof {
            assert(snv@.skip(start as int).take(4) =~= snv@.skip(start as int));
        }
    } else {
        let mut k: usize = 0;
        while k < snv.len()
            invariant
                0 <= k <= snv@.len(),
                snv@.len() < 4,
                out@ == head + snv@.take(k as int),
            decreases snv@.len() - k,
        {
            out.push(snv[k]);
            assert(out@ =~= head + snv@.take(k + 1));
            k = k + 1;
        }
        let mut z: usize = snv.len();
        while z < 4
            invariant
                snv@.len() <= z <= 4,
                "0000"@.len() == 4,
                forall|j: int| 0 <= j < 4 ==> "0000"@[j] == '0',
                out@ == head + (snv@ + "0000"@).take(z as int),
            decreases 4 - z,
        {
            proof {
                assert((snv@ + "0000"@).take(z + 1).drop_last() =~= (snv@ + "0000"@).take(
                    z as int,
                ));
                assert((snv@ + "0000"@).take(z + 1)[z as int] == '0');
            }
            out.push('0');
            assert(out@ =~= head + (snv@ + "0000"@).take(z + 1));
            z = z + 1;
        }
        proof {
            assert(snv@.take(snv@.len() as int) =~= snv@);
            assert((snv@ + "0000"@).take(snv@.len() as int) =~= snv@);
        }
    }
    string_of(&out)
}

/// The host-side MAC: the device MAC with its last octet replaced by
/// `01`, lowercased.
pub open spec fn spec_host_mac(mac: Seq<char>) -> Seq<char> {
    let parts = spec_split(mac, ':');
    let swapped = parts.update(parts.len() - 1, "01"@);
    spec_to_lower(crate::cells::spec_join(swapped, ':'))
}

/// Derive the host-side MAC from the device MAC.
pub fn host_mac_of(mac: &str) -> (r: String)
    ensures
        r@ == spec_host_mac(mac@),
{
    let cs = chars_of(mac);
    let mut parts = split_chars(&cs, ':');
    proof {
        lemma_nested_view(&parts);
        crate::text::lemma_spec_split_len(cs@, ':');
    }
    let last = parts.len() - 1;
    let _ = parts.remove(last);
    parts.push(chars_of("01"));
    proof {
        lemma_nested_view(&parts);
        assert(parts.deep_view() =~~= spec_split(mac@, ':').update(
            spec_split(mac@, ':').len() - 1,
            "01"@,
        ));
    }
    let ghost swapped = spec_split(mac@, ':').update(spec_split(mac@, ':').len() - 1, "01"@);
    let mut joined: Vec<char> = Vec::new();
    let mut i: usize = 0;
    assert(joined@ =~= crate::cells::spec_join(swapped.take(0), ':'));
    while i < parts.len()
        invariant
            0 <= i <= parts@.len(),
            parts@.len() == swapped.len(),
            forall|j: int| 0 <= j < parts@.len() ==> #[trigger] parts@[j]@ == swapped[j],
            joined@ == crate::cells::spec_join(swapped.take(i as int), ':'),
        decreases parts@.len() - i,
    {
        if i > 0 {
            joined.push(':');
        }
        let ghost mid = joined@;
        let mut k: usize = 0;
        while k < parts[i].len()
            invariant
                0 <= k <= parts@[i as int]@.len(),
                0 <= i < parts@.len(),
                joined@ == mid + parts@[i as int]@.take(k as int),
            decreases parts@[i as int]@.len() - k,
        {
            let c = parts[i][k];
            joined.push(c);
            assert(joined@ =~= mid + parts@[i as int]@.take(k + 1));
            k = k + 1;
        }
        proof {
            assert(parts@[i as int]@.take(parts@[i as int]@.len() as int) =~= parts@[
                i as int
            ]@);
            assert(swapped.take(i + 1).drop_last() =~= swapped.take(i as int));
            assert(swapped.take(i + 1)[i as int] == swapped[i as int]);
            if i == 0 {
                assert(joined@ =~= crate::cells::spec_join(swapped.take(1), ':'));
            } else {
                assert(joined@ =~= crate::cells::spec_join(swapped.take(i as int), ':')
                    + seq![':'] + swapped[i as int]);
                assert(joined@ =~= crate::cells::spec_join(swapped.take(i + 1), ':'));
            }
        }
        i = i + 1;
    }
    proof {
        assert(swapped.take(swapped.len() as int) =~= swapped);
    }
    let lowered = to_lower_chars(&joined);
    string_of(&lowered)
}

/// One step of a gadget hot switch, for the shell to execute in order.
#[derive(Debug)]
pub enum GadgetStep {
    /// Stop the adb daemon through its init script.
    StopAdbd,
    /// Start the adb daemon through its init script.
    StartAdbd,
    /// Write a file; a failure aborts the switch.
    WriteFile(String, String),
    /// Write a file only when it exists; ignore failures.
    WriteFileIfPresent(String, String),
    /// Remove a symlink or file when present.
    RemoveFileIfPresent(String),
    /// Remove a directory when present.
    RemoveDirIfPresent(String),
    /// Create a directory (mode 0755) when missing.
    EnsureDir(String),
    /// Link `link` to `target`.
    MakeSymlink(String, String),
    /// Let the hardware settle.
    SleepMs(u64),
    /// Send the USB-share AT command to the control character device.
    UsbShare(bool),
    /// Make sure configfs is mounted.
    MountConfigfs,
    /// Poll for the functionfs endpoint, bounded.
    WaitForFunctionFs,
    /// Route modem logs over the USB serial function.
    EnableLogTransport,
    /// Bring the gadget network interface up and route it.
    ConfigureNetwork,
}

/// The mathematical image of a switch step.
pub ghost enum GadgetStepV {
    StopAdbd,
    StartAdbd,
    WriteFile(Seq<char>, Seq<char>),
    WriteFileIfPresent(Seq<char>, Seq<char>),
    RemoveFileIfPresent(Seq<char>),
    RemoveDirIfPresent(Seq<char>),
    EnsureDir(Seq<char>),
    MakeSymlink(Seq<char>, Seq<char>),
    SleepMs(int),
    UsbShare(bool),
    MountConfigfs,
    WaitForFunctionFs,
    EnableLogTransport,
    ConfigureNetwork,
}

impl View for GadgetStep {
    type V = GadgetStepV;

    open spec fn view(&self) -> GadgetStepV {
        match self {
            GadgetStep::StopAdbd => GadgetStepV::StopAdbd,
            GadgetStep::StartAdbd => GadgetStepV::StartAdbd,
            GadgetStep::WriteFile(p, c) => GadgetStepV::WriteFile(p@, c@),
            GadgetStep::WriteFileIfPresent(p, c) => GadgetStepV::WriteFileIfPresent(p@, c@),
            GadgetStep::RemoveFileIfPresent(p) => GadgetStepV::RemoveFileIfPresent(p@),
            GadgetStep::RemoveDirIfPresent(p) => GadgetStepV::RemoveDirIfPresent(p@),
            GadgetStep::EnsureDir(p) => GadgetStepV::EnsureDir(p@),
            GadgetStep::MakeSymlink(t, l) => GadgetStepV::MakeSymlink(t@, l@),
            GadgetStep::SleepMs(ms) => GadgetStepV::SleepMs(*ms as int),
            GadgetStep::UsbShare(e) => GadgetStepV::UsbShare(*e),
            GadgetStep::MountConfigfs => GadgetStepV::MountConfigfs,
            GadgetStep::WaitForFunctionFs => GadgetStepV::WaitForFunctionFs,
            GadgetStep::EnableLogTransport => GadgetStepV::EnableLogTransport,
            GadgetStep::ConfigureNetwork => GadgetStepV::ConfigureNetwork,
        }
    }
}

/// The view of a step list.
pub open spec fn gview(v: Seq<GadgetStep>) -> Seq<GadgetStepV> {
    v.map_values(|s: GadgetStep| s@)
}

/// A path under the gadget's function directory.
pub open spec fn spec_fpath(name: Seq<char>) -> Seq<char> {
    "/sys/kernel/config/usb_gadget/g1/functions/"@ + name
}

/// The configuration's numbered function link.
pub open spec fn spec_link_path(i: int) -> Seq<char> {
    "/sys/kernel/config/usb_gadget/g1/configs/b.1/f"@ + dec_digits(i as nat)
}

/// The removals of the sixteen possible function links.
pub open spec fn spec_link_removals(i: int) -> Seq<GadgetStepV>
    decreases 16 - i,
{
    if i < 0 || i >= 16 {
        Seq::empty()
    } else {
        seq![GadgetStepV::RemoveFileIfPresent(spec_link_path(i))] + spec_link_removals(i + 1)
    }
}

proof fn lemma_link_removals(i: int)
    requires
        0 <= i <= 16,
    ensures
        spec_link_removals(i).len() == 16 - i,
        forall|k: int|
            0 <= k < 16 - i ==> #[trigger] spec_link_removals(i)[k]
                == GadgetStepV::RemoveFileIfPresent(spec_link_path(i + k)),
    decreases 16 - i,
{
    if i < 16 {
        lemma_link_removals(i + 1);
        let head = seq![GadgetStepV::RemoveFileIfPresent(spec_link_path(i))];
        let tail = spec_link_removals(i + 1);
        assert(spec_link_removals(i) == head + tail);
        assert forall|k: int| 0 <= k < 16 - i implies #[trigger] spec_link_removals(i)[k]
            == GadgetStepV::RemoveFileIfPresent(spec_link_path(i + k)) by {
            if k == 0 {
                assert((head + tail)[0] == head[0]);
            } else {
                assert((head + tail)[k] == tail[k - 1]);
                assert(tail[k - 1] == GadgetStepV::RemoveFileIfPresent(
                    spec_link_path(i + 1 + (k - 1)),
                ));
                assert(i + 1 + (k - 1) == i + k);
            }
        }
    }
}

/// The removals of every known network-function directory.
pub open spec fn spec_cdc_removals() -> Seq<GadgetStepV> {
    seq![
        GadgetStepV::RemoveDirIfPresent(spec_fpath("rndis.gs4"@)),
        GadgetStepV::RemoveDirIfPresent(spec_fpath("ecm.gs0"@)),
        GadgetStepV::RemoveDirIfPresent(spec_fpath("ecm.gs1"@)),
        GadgetStepV::RemoveDirIfPresent(spec_fpath("ecm.gs2"@)),
        GadgetStepV::RemoveDirIfPresent(spec_fpath("ecm.gs3"@)),
        GadgetStepV::RemoveDirIfPresent(spec_fpath("ncm.gs0"@)),
        GadgetStepV::RemoveDirIfPresent(spec_fpath("ncm.gs1"@)),
        GadgetStepV::RemoveDirIfPresent(spec_fpath("ncm.gs2"@)),
        GadgetStepV::RemoveDirIfPresent(spec_fpath("ncm.gs3"@)),
        GadgetStepV::RemoveDirIfPresent(spec_fpath("mbim.gs0"@)),
    ]
}

/// The creations of the serial and adb helper functions.
pub open spec fn spec_helper_creations() -> Seq<GadgetStepV> {
    seq![
        GadgetStepV::EnsureDir(spec_fpath("vser.gs0"@)),
        GadgetStepV::EnsureDir(spec_fpath("ffs.adb"@)),
        GadgetStepV::EnsureDir(spec_fpath("gser.gs0"@)),
        GadgetStepV::EnsureDir(spec_fpath("gser.gs1"@)),
        GadgetStepV::EnsureDir(spec_fpath("gser.gs2"@)),
        GadgetStepV::EnsureDir(spec_fpath("gser.gs3"@)),
        GadgetStepV::EnsureDir(spec_fpath("gser.gs4"@)),
        GadgetStepV::EnsureDir(spec_fpath("gser.gs5"@)),
        GadgetStepV::EnsureDir(spec_fpath("gser.gs6"@)),
        GadgetStepV::EnsureDir(spec_fpath("gser.gs7"@)),
    ]
}

/// The fixed function links: the primary network function first, then
/// the serial, adb and diagnostic channels.
pub open spec fn spec_function_links(functions: Seq<char>) -> Seq<GadgetStepV> {
    seq![
        GadgetStepV::MakeSymlink(spec_fpath(functions), spec_link_path(1)),
        GadgetStepV::MakeSymlink(spec_fpath("gser.gs2"@), spec_link_path(2)),
        GadgetStepV::MakeSymlink(spec_fpath("gser.gs0"@), spec_link_path(3)),
        GadgetStepV::MakeSymlink(spec_fpath("vser.gs0"@), spec_link_path(4)),
        GadgetStepV::MakeSymlink(spec_fpath("gser.gs3"@), spec_link_path(5)),
        GadgetStepV::MakeSymlink(spec_fpath("ffs.adb"@), spec_link_path(6)),
        GadgetStepV::MakeSymlink(spec_fpath("gser.gs4"@), spec_link_path(7)),
        GadgetStepV::MakeSymlink(spec_fpath("gser.gs5"@), spec_link_path(8)),
        GadgetStepV::MakeSymlink(spec_fpath("gser.gs6"@), spec_link_path(9)),
    ]
}

/// The hardware-acceleration protocol hint a mode asks for.
pub open spec fn spec_mode_pamu3(mode: u8) -> Option<Seq<char>> {
    if mode == 1 {
        Some("NCM"@)
    } else if mode == 3 {
        Some("RNDIS"@)
    } else {
        None
    }
}

/// The configuration name a mode carries.
pub open spec fn spec_mode_configuration(mode: u8) -> Seq<char> {
    if mode == 1 {
        "ncm"@
    } else if mode == 2 {
        "ecm"@
    } else {
        "rndis"@
    }
}

/// The primary function directory of a mode.
pub open spec fn spec_mode_functions(mode: u8) -> Seq<char> {
    if mode == 1 {
        "ncm.gs0"@
    } else if mode == 2 {
        "ecm.gs0"@
    } else {
        "rndis.gs4"@
    }
}

/// Whether a mode turns USB sharing on (RNDIS alone does).
pub open spec fn spec_mode_share(mode: u8) -> bool {
    mode == 3
}

/// The whole hot-switch plan for a mode: teardown, acceleration hints,
/// gadget identity, functions and links, then daemon start, functionfs
/// wait, controller rebind and network bring-up.
pub open spec fn spec_switch_plan(mode: u8, udc: Seq<char>, serial: Seq<char>,
    product: Seq<char>) -> Seq<GadgetStepV> {
    seq![
        GadgetStepV::StopAdbd,
        GadgetStepV::WriteFile("/sys/kernel/config/usb_gadget/g1/UDC"@, "none"@),
        GadgetStepV::SleepMs(100),
    ] + spec_link_removals(0) + spec_cdc_removals() + (match spec_mode_pamu3(mode) {
        Some(p) => seq![
            GadgetStepV::WriteFileIfPresent(
                "/sys/devices/platform/soc/soc:ipa/2b300000.pamu3/pamu3_protocol"@,
                p,
            ),
        ],
        None => Seq::<GadgetStepV>::empty(),
    }) + seq![
        GadgetStepV::WriteFileIfPresent(
            "/sys/devices/platform/soc/soc:ipa/2b300000.pamu3/max_dl_pkts"@,
            "7"@,
        ),
        GadgetStepV::UsbShare(spec_mode_share(mode)),
        GadgetStepV::MountConfigfs,
        GadgetStepV::EnsureDir("/sys/kernel/config/usb_gadget/g1"@),
        GadgetStepV::WriteFile(
            "/sys/kernel/config/usb_gadget/g1/idVendor"@,
            spec_mode_ids(mode).0,
        ),
        GadgetStepV::WriteFile(
            "/sys/kernel/config/usb_gadget/g1/idProduct"@,
            spec_mode_ids(mode).1,
        ),
        GadgetStepV::WriteFile("/sys/kernel/config/usb_gadget/g1/bcdDevice"@, "0x0404"@),
        GadgetStepV::WriteFile("/sys/kernel/config/usb_gadget/g1/bDeviceClass"@, "0"@),
        GadgetStepV::EnsureDir("/sys/kernel/config/usb_gadget/g1/strings/0x409"@),
        GadgetStepV::WriteFile(
            "/sys/kernel/config/usb_gadget/g1/strings/0x409/serialnumber"@,
            serial,
        ),
        GadgetStepV::WriteFile(
            "/sys/kernel/config/usb_gadget/g1/strings/0x409/manufacturer"@,
            "SOYEA"@,
        ),
        GadgetStepV::WriteFile(
            "/sys/kernel/config/usb_gadget/g1/strings/0x409/product"@,
            product,
        ),
        GadgetStepV::EnsureDir(
            "/sys/kernel/config/usb_gadget/g1/configs/b.1/strings/0x409"@,
        ),
        GadgetStepV::WriteFile(
            "/sys/kernel/config/usb_gadget/g1/configs/b.1/strings/0x409/configuration"@,
            spec_mode_configuration(mode),
        ),
        GadgetStepV::WriteFile(
            "/sys/kernel/config/usb_gadget/g1/configs/b.1/MaxPower"@,
            "500"@,
        ),
        GadgetStepV::WriteFile(
            "/sys/kernel/config/usb_gadget/g1/configs/b.1/bmAttributes"@,
            "0xc0"@,
        ),
        GadgetStepV::EnsureDir(spec_fpath(spec_mode_functions(mode))),
    ] + spec_helper_creations() + seq![
        GadgetStepV::WriteFileIfPresent(
            spec_fpath(spec_mode_functions(mode)) + "/dev_addr"@,
            spec_to_lower("CC:E8:AC:C0:00:00"@),
        ),
        GadgetStepV::WriteFileIfPresent(
            spec_fpath(spec_mode_functions(mode)) + "/host_addr"@,
            spec_host_mac("CC:E8:AC:C0:00:00"@),
        ),
    ] + spec_function_links(spec_mode_functions(mode)) + seq![
        GadgetStepV::StartAdbd,
        GadgetStepV::WaitForFunctionFs,
        GadgetStepV::EnableLogTransport,
        GadgetStepV::WriteFile("/sys/kernel/config/usb_gadget/g1/UDC"@, udc),
        GadgetStepV::SleepMs(1000),
        GadgetStepV::ConfigureNetwork,
    ]
}

/// The function path of one name, as a string.
fn fpath_of(name: &str) -> (r: String)
    ensures
        r@ == spec_fpath(name@),
{
    let mut v: Vec<char> = Vec::new();
    append_str(&mut v, "/sys/kernel/config/usb_gadget/g1/functions/");
    append_str(&mut v, name);
    string_of(&v)
}

/// The numbered link path, as a string.
fn link_path_of(i: u64) -> (r: String)
    ensures
        r@ == spec_link_path(i as int),
{
    let mut v: Vec<char> = Vec::new();
    append_str(&mut v, "/sys/kernel/config/usb_gadget/g1/configs/b.1/f");
    push_dec_u64(&mut v, i);
    string_of(&v)
}

/// Push one step and account for it.
fn push_step(plan: &mut Vec<GadgetStep>, step: GadgetStep)
    ensures
        gview(final(plan)@) == gview(old(plan)@).push(step@),
{
    let ghost before = plan@;
    plan.push(step);
    proof {
        assert(gview(plan@) =~= gview(before).push(plan@[plan@.len() - 1]@));
    }
}

/// One step cloned field by field.
fn clone_step(s: &GadgetStep) -> (r: GadgetStep)
    ensures
        r@ == s@,
{
    match s {
        GadgetStep::StopAdbd => GadgetStep::StopAdbd,
        GadgetStep::StartAdbd => GadgetStep::StartAdbd,
        GadgetStep::WriteFile(p, c) => GadgetStep::WriteFile(p.clone(), c.clone()),
        GadgetStep::WriteFileIfPresent(p, c) => GadgetStep::WriteFileIfPresent(
            p.clone(),
            c.clone(),
        ),
        GadgetStep::RemoveFileIfPresent(p) => GadgetStep::RemoveFileIfPresent(p.clone()),
        GadgetStep::RemoveDirIfPresent(p) => GadgetStep::RemoveDirIfPresent(p.clone()),
        GadgetStep::EnsureDir(p) => GadgetStep::EnsureDir(p.clone()),
        GadgetStep::MakeSymlink(t, l) => GadgetStep::MakeSymlink(t.clone(), l.clone()),
        GadgetStep::SleepMs(ms) => GadgetStep::SleepMs(*ms),
        GadgetStep::UsbShare(e) => GadgetStep::UsbShare(*e),
        GadgetStep::MountConfigfs => GadgetStep::MountConfigfs,
        GadgetStep::WaitForFunctionFs => GadgetStep::WaitForFunctionFs,
        GadgetStep::EnableLogTransport => GadgetStep::EnableLogTransport,
        GadgetStep::ConfigureNetwork => GadgetStep::ConfigureNetwork,
    }
}

/// Append a whole section to a plan.
fn append_steps(dst: &mut Vec<GadgetStep>, src: &Vec<GadgetStep>)
    ensures
        gview(final(dst)@) == gview(old(dst)@) + gview(src@),
{
    let mut i: usize = 0;
    while i < src.len()
        invariant
            0 <= i <= src@.len(),
            gview(dst@) == gview(old(dst)@) + gview(src@.take(i as int)),
        decreases src@.len() - i,
    {
        push_step(dst, clone_step(&src[i]));
        proof {
            assert(gview(src@.take(i + 1)) =~= gview(src@.take(i as int)).push(
                src@[i as int]@,
            ));
            assert(gview(dst@) =~= gview(old(dst)@) + gview(src@.take(i + 1)));
        }
        i = i + 1;
    }
    proof {
        assert(src@.take(src@.len() as int) =~= src@);
    }
}

/// Teardown: stop the daemon, unbind the controller, remove every link
/// and every network function.
fn plan_teardown() -> (r: Vec<GadgetStep>)
    ensures
        gview(r@) == seq![
            GadgetStepV::StopAdbd,
            GadgetStepV::WriteFile("/sys/kernel/config/usb_gadget/g1/UDC"@, "none"@),
            GadgetStepV::SleepMs(100),
        ] + spec_link_removals(0) + spec_cdc_removals(),
{
    let ghost head = seq![
        GadgetStepV::StopAdbd,
        GadgetStepV::WriteFile("/sys/kernel/config/usb_gadget/g1/UDC"@, "none"@),
        GadgetStepV::SleepMs(100),
    ];
    let mut plan: Vec<GadgetStep> = Vec::new();
    push_step(&mut plan, GadgetStep::StopAdbd);
    push_step(&mut plan, GadgetStep::WriteFile(
        String::from_str("/sys/kernel/config/usb_gadget/g1/UDC"),
        String::from_str("none"),
    ));
    push_step(&mut plan, GadgetStep::SleepMs(100));
    proof {
        assert(gview(plan@) =~= head);
        lemma_link_removals(0);
    }
    let mut i: u64 = 0;
    while i < 16
        invariant
            0 <= i <= 16,
            gview(plan@) == head + spec_link_removals(0).take(i as int),
            spec_link_removals(0).len() == 16,
            forall|k: int|
                0 <= k < 16 ==> #[trigger] spec_link_removals(0)[k]
                    == GadgetStepV::RemoveFileIfPresent(spec_link_path(0 + k)),
        decreases 16 - i,
    {
        let p = link_path_of(i);
        push_step(&mut plan, GadgetStep::RemoveFileIfPresent(p));
        proof {
            assert(spec_link_removals(0)[i as int] == GadgetStepV::RemoveFileIfPresent(
                spec_link_path(0 + i),
            ));
            assert(0 + i as int == i as int);
            assert(spec_link_removals(0).take(i + 1).drop_last() =~= spec_link_removals(
                0,
            ).take(i as int));
            assert(gview(plan@) =~= head + spec_link_removals(0).take(i + 1));
        }
        i = i + 1;
    }
    proof {
        assert(spec_link_removals(0).take(16) =~= spec_link_removals(0));
    }
    push_step(&mut plan, GadgetStep::RemoveDirIfPresent(fpath_of("rndis.gs4")));
    push_step(&mut plan, GadgetStep::RemoveDirIfPresent(fpath_of("ecm.gs0")));
    push_step(&mut plan, GadgetStep::RemoveDirIfPresent(fpath_of("ecm.gs1")));
    push_step(&mut plan, GadgetStep::RemoveDirIfPresent(fpath_of("ecm.gs2")));
    push_step(&mut plan, GadgetStep::RemoveDirIfPresent(fpath_of("ecm.gs3")));
    push_step(&mut plan, GadgetStep::RemoveDirIfPresent(fpath_of("ncm.gs0")));
    push_step(&mut plan, GadgetStep::RemoveDirIfPresent(fpath_of("ncm.gs1")));
    push_step(&mut plan, GadgetStep::RemoveDirIfPresent(fpath_of("ncm.gs2")));
    push_step(&mut plan, GadgetStep::RemoveDirIfPresent(fpath_of("ncm.gs3")));
    push_step(&mut plan, GadgetStep::RemoveDirIfPresent(fpath_of("mbim.gs0")));
    proof {
        assert(gview(plan@) =~= head + spec_link_removals(0) + spec_cdc_removals());
    }
    plan
}

/// Acceleration hints, share mode, and the gadget root.
fn plan_accel(config: &UsbModeConfig, ghost_mode: Ghost<u8>) -> (r: Vec<GadgetStep>)
    requires
        (match config.pamu3_protocol {
            Some(p) => spec_mode_pamu3(ghost_mode@) is Some && p@ == spec_mode_pamu3(
                ghost_mode@,
            )->0,
            None => spec_mode_pamu3(ghost_mode@) is None,
        }),
        config.usb_share_enable == spec_mode_share(ghost_mode@),
    ensures
        gview(r@) == (match spec_mode_pamu3(ghost_mode@) {
            Some(p) => seq![
                GadgetStepV::WriteFileIfPresent(
                    "/sys/devices/platform/soc/soc:ipa/2b300000.pamu3/pamu3_protocol"@,
                    p,
                ),
            ],
            None => Seq::<GadgetStepV>::empty(),
        }) + seq![
            GadgetStepV::WriteFileIfPresent(
                "/sys/devices/platform/soc/soc:ipa/2b300000.pamu3/max_dl_pkts"@,
                "7"@,
            ),
            GadgetStepV::UsbShare(spec_mode_share(ghost_mode@)),
            GadgetStepV::MountConfigfs,
            GadgetStepV::EnsureDir("/sys/kernel/config/usb_gadget/g1"@),
        ],
{
    let mut plan: Vec<GadgetStep> = Vec::new();
    match config.pamu3_protocol {
        Some(p) => {
            push_step(&mut plan, GadgetStep::WriteFileIfPresent(
                String::from_str(
                    "/sys/devices/platform/soc/soc:ipa/2b300000.pamu3/pamu3_protocol",
                ),
                String::from_str(p),
            ));
        },
        None => {},
    }
    push_step(&mut plan, GadgetStep::WriteFileIfPresent(
        String::from_str("/sys/devices/platform/soc/soc:ipa/2b300000.pamu3/max_dl_pkts"),
        String::from_str("7"),
    ));
    push_step(&mut plan, GadgetStep::UsbShare(config.usb_share_enable));
    push_step(&mut plan, GadgetStep::MountConfigfs);
    push_step(&mut plan, GadgetStep::EnsureDir(
        String::from_str("/sys/kernel/config/usb_gadget/g1"),
    ));
    proof {
        assert(gview(plan@) =~= (match spec_mode_pamu3(ghost_mode@) {
            Some(p) => seq![
                GadgetStepV::WriteFileIfPresent(
                    "/sys/devices/platform/soc/soc:ipa/2b300000.pamu3/pamu3_protocol"@,
                    p,
                ),
            ],
            None => Seq::<GadgetStepV>::empty(),
        }) + seq![
            GadgetStepV::WriteFileIfPresent(
                "/sys/devices/platform/soc/soc:ipa/2b300000.pamu3/max_dl_pkts"@,
                "7"@,
            ),
            GadgetStepV::UsbShare(spec_mode_share(ghost_mode@)),
            GadgetStepV::MountConfigfs,
            GadgetStepV::EnsureDir("/sys/kernel/config/usb_gadget/g1"@),
        ]);
    }
    plan
}

/// The gadget identity block: ids, descriptors and strings.
fn plan_identity(config: &UsbModeConfig, serial: &str, product: &str, ghost_mode: Ghost<u8>)
    -> (r: Vec<GadgetStep>)
    requires
        config.vid@ == spec_mode_ids(ghost_mode@).0,
        config.pid@ == spec_mode_ids(ghost_mode@).1,
        config.bcd_device@ == "0x0404"@,
        config.configuration@ == spec_mode_configuration(ghost_mode@),
        config.functions@ == spec_mode_functions(ghost_mode@),
    ensures
        gview(r@) == seq![
            GadgetStepV::WriteFile(
                "/sys/kernel/config/usb_gadget/g1/idVendor"@,
                spec_mode_ids(ghost_mode@).0,
            ),
            GadgetStepV::WriteFile(
                "/sys/kernel/config/usb_gadget/g1/idProduct"@,
                spec_mode_ids(ghost_mode@).1,
            ),
            GadgetStepV::WriteFile("/sys/kernel/config/usb_gadget/g1/bcdDevice"@, "0x0404"@),
            GadgetStepV::WriteFile("/sys/kernel/config/usb_gadget/g1/bDeviceClass"@, "0"@),
            GadgetStepV::EnsureDir("/sys/kernel/config/usb_gadget/g1/strings/0x409"@),
            GadgetStepV::WriteFile(
                "/sys/kernel/config/usb_gadget/g1/strings/0x409/serialnumber"@,
                serial@,
            ),
            GadgetStepV::WriteFile(
                "/sys/kernel/config/usb_gadget/g1/strings/0x409/manufacturer"@,
                "SOYEA"@,
            ),
            GadgetStepV::WriteFile(
                "/sys/kernel/config/usb_gadget/g1/strings/0x409/product"@,
                product@,
            ),
            GadgetStepV::EnsureDir(
                "/sys/kernel/config/usb_gadget/g1/configs/b.1/strings/0x409"@,
            ),
            GadgetStepV::WriteFile(
                "/sys/kernel/config/usb_gadget/g1/configs/b.1/strings/0x409/configuration"@,
                spec_mode_configuration(ghost_mode@),
            ),
            GadgetStepV::WriteFile(
                "/sys/kernel/config/usb_gadget/g1/configs/b.1/MaxPower"@,
                "500"@,
            ),
            GadgetStepV::WriteFile(
                "/sys/kernel/config/usb_gadget/g1/configs/b.1/bmAttributes"@,
                "0xc0"@,
            ),
            GadgetStepV::EnsureDir(spec_fpath(spec_mode_functions(ghost_mode@))),
        ],
{
    let mut plan: Vec<GadgetStep> = Vec::new();
    push_step(&mut plan, GadgetStep::WriteFile(
        String::from_str("/sys/kernel/config/usb_gadget/g1/idVendor"),
        String::from_str(config.vid),
    ));
    push_step(&mut plan, GadgetStep::WriteFile(
        String::from_str("/sys/kernel/config/usb_gadget/g1/idProduct"),
        String::from_str(config.pid),
    ));
    push_step(&mut plan, GadgetStep::WriteFile(
        String::from_str("/sys/kernel/config/usb_gadget/g1/bcdDevice"),
        String::from_str(config.bcd_device),
    ));
    push_step(&mut plan, GadgetStep::WriteFile(
        String::from_str("/sys/kernel/config/usb_gadget/g1/bDeviceClass"),
        String::from_str("0"),
    ));
    push_step(&mut plan, GadgetStep::EnsureDir(
        String::from_str("/sys/kernel/config/usb_gadget/g1/strings/0x409"),
    ));
    push_step(&mut plan, GadgetStep::WriteFile(
        String::from_str("/sys/kernel/config/usb_gadget/g1/strings/0x409/serialnumber"),
        String::from_str(serial),
    ));
    push_step(&mut plan, GadgetStep::WriteFile(
        String::from_str("/sys/kernel/config/usb_gadget/g1/strings/0x409/manufacturer"),
        String::from_str("SOYEA"),
    ));
    push_step(&mut plan, GadgetStep::WriteFile(
        String::from_str("/sys/kernel/config/usb_gadget/g1/strings/0x409/product"),
        String::from_str(product),
    ));
    push_step(&mut plan, GadgetStep::EnsureDir(
        String::from_str("/sys/kernel/config/usb_gadget/g1/configs/b.1/strings/0x409"),
    ));
    push_step(&mut plan, GadgetStep::WriteFile(
        String::from_str(
            "/sys/kernel/config/usb_gadget/g1/configs/b.1/strings/0x409/configuration",
        ),
        String::from_str(config.configuration),
    ));
    push_step(&mut plan, GadgetStep::WriteFile(
        String::from_str("/sys/kernel/config/usb_gadget/g1/configs/b.1/MaxPower"),
        String::from_str("500"),
    ));
    push_step(&mut plan, GadgetStep::WriteFile(
        String::from_str("/sys/kernel/config/usb_gadget/g1/configs/b.1/bmAttributes"),
        String::from_str("0xc0"),
    ));
    push_step(&mut plan, GadgetStep::EnsureDir(fpath_of(config.functions)));
    proof {
        assert(gview(plan@) =~= seq![
            GadgetStepV::WriteFile(
                "/sys/kernel/config/usb_gadget/g1/idVendor"@,
                spec_mode_ids(ghost_mode@).0,
            ),
            GadgetStepV::WriteFile(
                "/sys/kernel/config/usb_gadget/g1/idProduct"@,
                spec_mode_ids(ghost_mode@).1,
            ),
            GadgetStepV::WriteFile("/sys/kernel/config/usb_gadget/g1/bcdDevice"@, "0x0404"@),
            GadgetStepV::WriteFile("/sys/kernel/config/usb_gadget/g1/bDeviceClass"@, "0"@),
            GadgetStepV::EnsureDir("/sys/kernel/config/usb_gadget/g1/strings/0x409"@),
            GadgetStepV::WriteFile(
                "/sys/kernel/config/usb_gadget/g1/strings/0x409/serialnumber"@,
                serial@,
            ),
            GadgetStepV::WriteFile(
                "/sys/kernel/config/usb_gadget/g1/strings/0x409/manufacturer"@,
                "SOYEA"@,
            ),
            GadgetStepV::WriteFile(
                "/sys/kernel/config/usb_gadget/g1/strings/0x409/product"@,
                product@,
            ),
            GadgetStepV::EnsureDir(
                "/sys/kernel/config/usb_gadget/g1/configs/b.1/strings/0x409"@,
            ),
            GadgetStepV::WriteFile(
                "/sys/kernel/config/usb_gadget/g1/configs/b.1/strings/0x409/configuration"@,
                spec_mode_configuration(ghost_mode@),
            ),
            GadgetStepV::WriteFile(
                "/sys/kernel/config/usb_gadget/g1/configs/b.1/MaxPower"@,
                "500"@,
            ),
            GadgetStepV::WriteFile(
                "/sys/kernel/config/usb_gadget/g1/configs/b.1/bmAttributes"@,
                "0xc0"@,
            ),
            GadgetStepV::EnsureDir(spec_fpath(spec_mode_functions(ghost_mode@))),
        ]);
    }
    plan
}

/// Helper functions, interface addresses, and the function links.
fn plan_functions(config: &UsbModeConfig, ghost_mode: Ghost<u8>) -> (r: Vec<GadgetStep>)
    requires
        config.functions@ == spec_mode_functions(ghost_mode@),
    ensures
        gview(r@) == spec_helper_creations() + seq![
            GadgetStepV::WriteFileIfPresent(
                spec_fpath(spec_mode_functions(ghost_mode@)) + "/dev_addr"@,
                spec_to_lower("CC:E8:AC:C0:00:00"@),
            ),
            GadgetStepV::WriteFileIfPresent(
                spec_fpath(spec_mode_functions(ghost_mode@)) + "/host_addr"@,
                spec_host_mac("CC:E8:AC:C0:00:00"@),
            ),
        ] + spec_function_links(spec_mode_functions(ghost_mode@)),
{
    let mut plan: Vec<GadgetStep> = Vec::new();
    push_step(&mut plan, GadgetStep::EnsureDir(fpath_of("vser.gs0")));
    push_step(&mut plan, GadgetStep::EnsureDir(fpath_of("ffs.adb")));
    push_step(&mut plan, GadgetStep::EnsureDir(fpath_of("gser.gs0")));
    push_step(&mut plan, GadgetStep::EnsureDir(fpath_of("gser.gs1")));
    push_step(&mut plan, GadgetStep::EnsureDir(fpath_of("gser.gs2")));
    push_step(&mut plan, GadgetStep::EnsureDir(fpath_of("gser.gs3")));
    push_step(&mut plan, GadgetStep::EnsureDir(fpath_of("gser.gs4")));
    push_step(&mut plan, GadgetStep::EnsureDir(fpath_of("gser.gs5")));
    push_step(&mut plan, GadgetStep::EnsureDir(fpath_of("gser.gs6")));
    push_step(&mut plan, GadgetStep::EnsureDir(fpath_of("gser.gs7")));
    let mut dev_addr_path: Vec<char> = Vec::new();
    append_str(&mut dev_addr_path, fpath_of(config.functions).as_str());
    append_str(&mut dev_addr_path, "/dev_addr");
    let dev_mac = string_of(&to_lower_chars(&chars_of("CC:E8:AC:C0:00:00")));
    push_step(&mut plan, GadgetStep::WriteFileIfPresent(string_of(&dev_addr_path), dev_mac));
    let mut host_addr_path: Vec<char> = Vec::new();
    append_str(&mut host_addr_path, fpath_of(config.functions).as_str());
    append_str(&mut host_addr_path, "/host_addr");
    let host_mac = host_mac_of("CC:E8:AC:C0:00:00");
    push_step(&mut plan, GadgetStep::WriteFileIfPresent(
        string_of(&host_addr_path),
        host_mac,
    ));
    push_step(&mut plan, GadgetStep::MakeSymlink(fpath_of(config.functions), link_path_of(1)));
    push_step(&mut plan, GadgetStep::MakeSymlink(fpath_of("gser.gs2"), link_path_of(2)));
    push_step(&mut plan, GadgetStep::MakeSymlink(fpath_of("gser.gs0"), link_path_of(3)));
    push_step(&mut plan, GadgetStep::MakeSymlink(fpath_of("vser.gs0"), link_path_of(4)));
    push_step(&mut plan, GadgetStep::MakeSymlink(fpath_of("gser.gs3"), link_path_of(5)));
    push_step(&mut plan, GadgetStep::MakeSymlink(fpath_of("ffs.adb"), link_path_of(6)));
    push_step(&mut plan, GadgetStep::MakeSymlink(fpath_of("gser.gs4"), link_path_of(7)));
    push_step(&mut plan, GadgetStep::MakeSymlink(fpath_of("gser.gs5"), link_path_of(8)));
    push_step(&mut plan, GadgetStep::MakeSymlink(fpath_of("gser.gs6"), link_path_of(9)));
    proof {
        assert(gview(plan@) =~= spec_helper_creations() + seq![
            GadgetStepV::WriteFileIfPresent(
                spec_fpath(spec_mode_functions(ghost_mode@)) + "/dev_addr"@,
                spec_to_lower("CC:E8:AC:C0:00:00"@),
            ),
            GadgetStepV::WriteFileIfPresent(
                spec_fpath(spec_mode_functions(ghost_mode@)) + "/host_addr"@,
                spec_host_mac("CC:E8:AC:C0:00:00"@),
            ),
        ] + spec_function_links(spec_mode_functions(ghost_mode@)));
    }
    plan
}

/// Build the hot-switch plan for a mode.  Modes outside the table are
/// rejected with a message and no plan.
pub fn switch_plan(mode: u8, udc_name: &str, serial: &str, product: &str) -> (r: Result<
    Vec<GadgetStep>,
    String,
>)
    ensures
        r is Ok <==> 1 <= mode <= 3,
        r is Ok ==> gview(r->Ok_0@) == spec_switch_plan(mode, udc_name@, serial@, product@),
        r is Err ==> r->Err_0@ == "Invalid USB mode: "@ + dec_digits(mode as nat)
            + ". Valid modes: 1=NCM, 2=ECM, 3=RNDIS, 4=NCM(no ADB)"@,
{
    let config = match UsbModeConfig::get(mode) {
        Some(c) => c,
        None => {
            let mut msg: Vec<char> = Vec::new();
            append_str(&mut msg, "Invalid USB mode: ");
            push_dec_u64(&mut msg, mode as u64);
            append_str(&mut msg, ". Valid modes: 1=NCM, 2=ECM, 3=RNDIS, 4=NCM(no ADB)");
            return Err(string_of(&msg));
        },
    };
    let mut plan = plan_teardown();
    let accel = plan_accel(&config, Ghost(mode));
    append_steps(&mut plan, &accel);
    let identity = plan_identity(&config, serial, product, Ghost(mode));
    append_steps(&mut plan, &identity);
    let functions = plan_functions(&config, Ghost(mode));
    append_steps(&mut plan, &functions);
    push_step(&mut plan, GadgetStep::StartAdbd);
    push_step(&mut plan, GadgetStep::WaitForFunctionFs);
    push_step(&mut plan, GadgetStep::EnableLogTransport);
    push_step(&mut plan, GadgetStep::WriteFile(
        String::from_str("/sys/kernel/config/usb_gadget/g1/UDC"),
        String::from_str(udc_name),
    ));
    push_step(&mut plan, GadgetStep::SleepMs(1000));
    push_step(&mut plan, GadgetStep::ConfigureNetwork);
    proof {
        assert(gview(plan@) =~= spec_switch_plan(mode, udc_name@, serial@, product@));
    }
    Ok(plan)
}


/// Law: writing a mode's ids and then reading the mode back returns the
/// mode that was set, whatever the persisted fallback holds.
pub proof fn lemma_mode_round_trip(mode: u8, fallback: Option<Seq<char>>)
    requires
        1 <= mode <= 3,
    ensures
        spec_current_mode(spec_mode_ids(mode).0, spec_mode_ids(mode).1, fallback) == Some(mode),
{
    reveal_strlit("0x1782");
    reveal_strlit("0x4040");
    reveal_strlit("0x4039");
    reveal_strlit("0x4038");
    reveal_strlit("0x4107");
    reveal_strlit("0x4105");
    reveal_strlit("0x4103");
    reveal_strlit("0x4101");
    reveal_strlit("0x4106");
    reveal_strlit("0x4104");
    reveal_strlit("0x4102");
    reveal_strlit("0x4100");
    reveal_strlit("0x3426");
    reveal_strlit("0x2999");
    let vid = spec_mode_ids(mode).0;
    let pid = spec_mode_ids(mode).1;
    lemma_trim_clean(vid);
    lemma_trim_clean(pid);
    lemma_lower_clean(vid);
    lemma_lower_clean(pid);
    assert(spec_mode_from_ids(vid, pid) == Some(mode));
}

} // verus!
