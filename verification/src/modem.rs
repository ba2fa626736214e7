//! Typed views over the cellular service's property maps.
//!
//! The D-Bus shell hands every property bag over as a list of name/value
//! pairs of plain values; this module reads the typed facts out of them
//! — SIM, network, device, data-context and call state — with the
//! defaulting rules the wire values call for.

use vstd::prelude::*;
use crate::models::{SimInfoResponse, NetworkInfoResponse, DeviceInfoResponse,
    AirplaneModeResponse, RoamingResponse, RadioModeResponse, RadioMode, QosInfoResponse,
    SimSlotResponse, CallInfo, ApnContext, OperatorInfo, spec_radio_from_ofono};
use crate::text::{spec_trim, spec_lines, spec_split, spec_parse_u64, spec_find, str_eq,
    chars_of, string_of, trim_chars, split_chars, lines_of, contains_subseq, starts_with,
    starts_with_chars, parse_u64_bounded, lemma_nested_view, lemma_string_vec_view};

verus! {

/// One property value, as the wire carries it.
pub enum PropValue {
    Str(String),
    Bool(bool),
    Byte(u8),
    Word(u16),
    Int(i32),
    UInt(u32),
    StrList(Vec<String>),
}

/// The mathematical image of a property value.
pub ghost enum PropValueV {
    Str(Seq<char>),
    Bool(bool),
    Byte(u8),
    Word(u16),
    Int(i32),
    UInt(u32),
    StrList(Seq<Seq<char>>),
}

impl View for PropValue {
    type V = PropValueV;

    open spec fn view(&self) -> PropValueV {
        match self {
            PropValue::Str(s) => PropValueV::Str(s@),
            PropValue::Bool(b) => PropValueV::Bool(*b),
            PropValue::Byte(b) => PropValueV::Byte(*b),
            PropValue::Word(w) => PropValueV::Word(*w),
            PropValue::Int(n) => PropValueV::Int(*n),
            PropValue::UInt(n) => PropValueV::UInt(*n),
            PropValue::StrList(v) => PropValueV::StrList(v.deep_view()),
        }
    }
}

/// The view of a property list.
pub open spec fn props_view(p: Seq<(String, PropValue)>) -> Seq<(Seq<char>, PropValueV)> {
    p.map_values(|e: (String, PropValue)| (e.0@, e.1@))
}

/// The first value stored under a key.
pub open spec fn lookup(props: Seq<(Seq<char>, PropValueV)>, key: Seq<char>)
    -> Option<PropValueV>
    decreases props.len(),
{
    if props.len() == 0 {
        None
    } else if props[0].0 == key {
        Some(props[0].1)
    } else {
        lookup(props.drop_first(), key)
    }
}

/// A string property, with a default for a missing or non-string value.
pub open spec fn get_str(props: Seq<(Seq<char>, PropValueV)>, key: Seq<char>,
    dflt: Seq<char>) -> Seq<char> {
    match lookup(props, key) {
        Some(PropValueV::Str(s)) => s,
        _ => dflt,
    }
}

/// A string property that stays absent when missing.
pub open spec fn get_str_opt(props: Seq<(Seq<char>, PropValueV)>, key: Seq<char>)
    -> Option<Seq<char>> {
    match lookup(props, key) {
        Some(PropValueV::Str(s)) => Some(s),
        _ => None,
    }
}

/// A boolean property with a default.
pub open spec fn get_bool(props: Seq<(Seq<char>, PropValueV)>, key: Seq<char>,
    dflt: bool) -> bool {
    match lookup(props, key) {
        Some(PropValueV::Bool(b)) => b,
        _ => dflt,
    }
}

/// A byte property with a default.
pub open spec fn get_byte(props: Seq<(Seq<char>, PropValueV)>, key: Seq<char>, dflt: u8) -> u8 {
    match lookup(props, key) {
        Some(PropValueV::Byte(b)) => b,
        _ => dflt,
    }
}

/// A word property with a default.
pub open spec fn get_word(props: Seq<(Seq<char>, PropValueV)>, key: Seq<char>,
    dflt: u16) -> u16 {
    match lookup(props, key) {
        Some(PropValueV::Word(w)) => w,
        _ => dflt,
    }
}

/// A string-list property, empty when missing.
pub open spec fn get_strlist(props: Seq<(Seq<char>, PropValueV)>, key: Seq<char>)
    -> Seq<Seq<char>> {
    match lookup(props, key) {
        Some(PropValueV::StrList(l)) => l,
        _ => Seq::empty(),
    }
}

/// A property list as handed over by the shell.
pub type PropList = Vec<(String, PropValue)>;

/// Find the first entry under a key.
fn prop_lookup<'a>(props: &'a PropList, key: &str) -> (r: Option<&'a PropValue>)
    ensures
        match r {
            Some(v) => lookup(props_view(props@), key@) == Some(v@),
            None => lookup(props_view(props@), key@) is None,
        },
{
    let ghost pv = props_view(props@);
    proof {
        assert(pv.skip(0) =~= pv);
    }
    let mut i: usize = 0;
    while i < props.len()
        invariant
            0 <= i <= props@.len(),
            pv == props_view(props@),
            pv.len() == props@.len(),
            forall|j: int| 0 <= j < props@.len() ==> #[trigger] pv[j] == (props@[j].0@,
            props@[j].1@),
            lookup(pv, key@) == lookup(pv.skip(i as int), key@),
        decreases props@.len() - i,
    {
        proof {
            assert(pv.skip(i as int).drop_first() =~= pv.skip(i + 1));
            assert(pv.skip(i as int)[0] == pv[i as int]);
        }
        if str_eq(props[i].0.as_str(), key) {
            return Some(&props[i].1);
        }
        i = i + 1;
    }
    proof {
        assert(pv.skip(pv.len() as int) =~= Seq::<(Seq<char>, PropValueV)>::empty());
    }
    None
}

/// Read a string property with a default.
pub fn prop_get_str(props: &PropList, key: &str, dflt: &str) -> (r: String)
    ensures
        r@ == get_str(props_view(props@), key@, dflt@),
{
    match prop_lookup(props, key) {
        Some(PropValue::Str(s)) => s.clone(),
        _ => String::from_str(dflt),
    }
}

/// Read an optional string property.
pub fn prop_get_str_opt(props: &PropList, key: &str) -> (r: Option<String>)
    ensures
        r is Some <==> get_str_opt(props_view(props@), key@) is Some,
        r is Some ==> r->0@ == get_str_opt(props_view(props@), key@)->0,
{
    match prop_lookup(props, key) {
        Some(PropValue::Str(s)) => Some(s.clone()),
        _ => None,
    }
}

/// Read a boolean property with a default.
pub fn prop_get_bool(props: &PropList, key: &str, dflt: bool) -> (r: bool)
    ensures
        r == get_bool(props_view(props@), key@, dflt),
{
    match prop_lookup(props, key) {
        Some(PropValue::Bool(b)) => *b,
        _ => dflt,
    }
}

/// Read a byte property with a default.
pub fn prop_get_byte(props: &PropList, key: &str, dflt: u8) -> (r: u8)
    ensures
        r == get_byte(props_view(props@), key@, dflt),
{
    match prop_lookup(props, key) {
        Some(PropValue::Byte(b)) => *b,
        _ => dflt,
    }
}

/// Read a word property with a default.
pub fn prop_get_word(props: &PropList, key: &str, dflt: u16) -> (r: u16)
    ensures
        r == get_word(props_view(props@), key@, dflt),
{
    match prop_lookup(props, key) {
        Some(PropValue::Word(w)) => *w,
        _ => dflt,
    }
}

/// Read a string-list property, empty when missing.
pub fn prop_get_strlist(props: &PropList, key: &str) -> (r: Vec<String>)
    ensures
        r.deep_view() == get_strlist(props_view(props@), key@),
{
    match prop_lookup(props, key) {
        Some(PropValue::StrList(v)) => {
            let mut out: Vec<String> = Vec::new();
            let mut i: usize = 0;
            proof {
                lemma_string_vec_view(v);
            }
            while i < v.len()
                invariant
                    0 <= i <= v@.len(),
                    out@.len() == i,
                    forall|j: int| 0 <= j < i ==> #[trigger] out@[j]@ == v@[j]@,
                decreases v@.len() - i,
            {
                out.push(v[i].clone());
                i = i + 1;
            }
            proof {
                lemma_string_vec_view(&out);
                assert(out.deep_view() =~= v.deep_view());
            }
            out
        },
        _ => {
            let out: Vec<String> = Vec::new();
            proof {
                lemma_string_vec_view(&out);
                assert(out.deep_view() =~= Seq::<Seq<char>>::empty());
            }
            out
        },
    }
}

/// Assemble the SIM report from the SIM and message-manager properties;
/// missing keys default to empty, false or `none`.
pub fn sim_info_from_props(sim: &PropList, msg: &PropList) -> (r: SimInfoResponse)
    ensures
        r.present == get_bool(props_view(sim@), "Present"@, false),
        r.iccid@ == get_str(props_view(sim@), "CardIdentifier"@, ""@),
        r.imsi@ == get_str(props_view(sim@), "SubscriberIdentity"@, ""@),
        r.phone_numbers.deep_view() == get_strlist(props_view(sim@), "SubscriberNumbers"@),
        r.sms_center@ == get_str(props_view(msg@), "ServiceCenterAddress"@, ""@),
        r.mcc@ == get_str(props_view(sim@), "MobileCountryCode"@, ""@),
        r.mnc@ == get_str(props_view(sim@), "MobileNetworkCode"@, ""@),
        r.pin_required@ == get_str(props_view(sim@), "PinRequired"@, "none"@),
        r.preferred_languages.deep_view() == get_strlist(
            props_view(sim@),
            "PreferredLanguages"@,
        ),
{
    SimInfoResponse {
        present: prop_get_bool(sim, "Present", false),
        iccid: prop_get_str(sim, "CardIdentifier", ""),
        imsi: prop_get_str(sim, "SubscriberIdentity", ""),
        phone_numbers: prop_get_strlist(sim, "SubscriberNumbers"),
        sms_center: prop_get_str(msg, "ServiceCenterAddress", ""),
        mcc: prop_get_str(sim, "MobileCountryCode", ""),
        mnc: prop_get_str(sim, "MobileNetworkCode", ""),
        pin_required: prop_get_str(sim, "PinRequired", "none"),
        preferred_languages: prop_get_strlist(sim, "PreferredLanguages"),
    }
}

/// Assemble the network report from the registration and radio-settings
/// properties.
pub fn network_info_from_props(net: &PropList, radio: &PropList) -> (r: NetworkInfoResponse)
    ensures
        r.operator_name@ == get_str(props_view(net@), "Name"@, ""@),
        r.registration_status@ == get_str(props_view(net@), "Status"@, "unknown"@),
        r.technology_preference@ == get_str(props_view(radio@), "TechnologyPreference"@, ""@),
        r.signal_strength == get_byte(props_view(net@), "Strength"@, 0),
        (r.mcc is Some <==> get_str_opt(props_view(net@), "MobileCountryCode"@) is Some),
        r.mcc is Some ==> r.mcc->0@ == get_str_opt(props_view(net@), "MobileCountryCode"@)->0,
        (r.mnc is Some <==> get_str_opt(props_view(net@), "MobileNetworkCode"@) is Some),
        r.mnc is Some ==> r.mnc->0@ == get_str_opt(props_view(net@), "MobileNetworkCode"@)->0,
{
    NetworkInfoResponse {
        operator_name: prop_get_str(net, "Name", ""),
        registration_status: prop_get_str(net, "Status", "unknown"),
        technology_preference: prop_get_str(radio, "TechnologyPreference", ""),
        signal_strength: prop_get_byte(net, "Strength", 0),
        mcc: prop_get_str_opt(net, "MobileCountryCode"),
        mnc: prop_get_str_opt(net, "MobileNetworkCode"),
    }
}

/// Assemble the device report from the modem properties.
pub fn device_info_from_props(modem: &PropList) -> (r: DeviceInfoResponse)
    ensures
        r.imei@ == get_str(props_view(modem@), "Serial"@, ""@),
        r.manufacturer@ == get_str(props_view(modem@), "Manufacturer"@, ""@),
        r.model@ == get_str(props_view(modem@), "Model"@, ""@),
        (r.revision is Some <==> get_str_opt(props_view(modem@), "Revision"@) is Some),
        r.revision is Some ==> r.revision->0@ == get_str_opt(
            props_view(modem@),
            "Revision"@,
        )->0,
        r.online == get_bool(props_view(modem@), "Online"@, false),
        r.powered == get_bool(props_view(modem@), "Powered"@, false),
{
    DeviceInfoResponse {
        imei: prop_get_str(modem, "Serial", ""),
        manufacturer: prop_get_str(modem, "Manufacturer", ""),
        model: prop_get_str(modem, "Model", ""),
        revision: prop_get_str_opt(modem, "Revision"),
        online: prop_get_bool(modem, "Online", false),
        powered: prop_get_bool(modem, "Powered", false),
    }
}

/// Assemble the airplane-mode report: the mode is on exactly when the
/// radio is offline.
pub fn airplane_mode_from_props(modem: &PropList) -> (r: AirplaneModeResponse)
    ensures
        r.online == get_bool(props_view(modem@), "Online"@, false),
        r.powered == get_bool(props_view(modem@), "Powered"@, false),
        r.enabled == !r.online,
{
    let online = prop_get_bool(modem, "Online", false);
    AirplaneModeResponse { enabled: !online, powered: prop_get_bool(modem, "Powered", false), online }
}

/// Assemble the roaming report: roaming is observed exactly when the
/// registration status reads `roaming`.
pub fn roaming_status_from_props(cm: &PropList, net: &PropList) -> (r: RoamingResponse)
    ensures
        r.roaming_allowed == get_bool(props_view(cm@), "RoamingAllowed"@, false),
        r.is_roaming == (get_str(props_view(net@), "Status"@, "unknown"@) == "roaming"@),
{
    let status = prop_get_str(net, "Status", "unknown");
    RoamingResponse {
        roaming_allowed: prop_get_bool(cm, "RoamingAllowed", false),
        is_roaming: str_eq(status.as_str(), "roaming"),
    }
}

/// The short radio-mode name for a preference string.
pub open spec fn spec_radio_mode_name(pref: Seq<char>) -> Seq<char> {
    match spec_radio_from_ofono(pref) {
        Some(RadioMode::Auto) => "auto"@,
        Some(RadioMode::LteOnly) => "lte"@,
        Some(RadioMode::NrOnly) => "nr"@,
        None => "unknown"@,
    }
}

/// Assemble the radio-mode report from the radio-settings properties.
pub fn radio_mode_from_props(radio: &PropList) -> (r: RadioModeResponse)
    ensures
        r.technology_preference@ == get_str(
            props_view(radio@),
            "TechnologyPreference"@,
            "unknown"@,
        ),
        r.mode@ == spec_radio_mode_name(r.technology_preference@),
{
    let pref = prop_get_str(radio, "TechnologyPreference", "unknown");
    let mode = match RadioMode::from_ofono_value(pref.as_str()) {
        Some(RadioMode::Auto) => String::from_str("auto"),
        Some(RadioMode::LteOnly) => String::from_str("lte"),
        Some(RadioMode::NrOnly) => String::from_str("nr"),
        None => String::from_str("unknown"),
    };
    RadioModeResponse { mode, technology_preference: pref }
}

/// The first internet context path carrying an APN.
pub open spec fn first_ctx_with_apn(ctxs: Seq<(Seq<char>, Seq<(Seq<char>, PropValueV)>)>)
    -> Option<Seq<char>>
    decreases ctxs.len(),
{
    if ctxs.len() == 0 {
        None
    } else if get_str(ctxs[0].1, "Type"@, ""@) == "internet"@ && get_str(
        ctxs[0].1,
        "AccessPointName"@,
        ""@,
    ).len() > 0 {
        Some(ctxs[0].0)
    } else {
        first_ctx_with_apn(ctxs.drop_first())
    }
}

/// The first internet context path.
pub open spec fn first_internet_ctx(ctxs: Seq<(Seq<char>, Seq<(Seq<char>, PropValueV)>)>)
    -> Option<Seq<char>>
    decreases ctxs.len(),
{
    if ctxs.len() == 0 {
        None
    } else if get_str(ctxs[0].1, "Type"@, ""@) == "internet"@ {
        Some(ctxs[0].0)
    } else {
        first_internet_ctx(ctxs.drop_first())
    }
}

/// The selected data path: the first internet context with an APN, else
/// the first internet context, else the conventional default.
pub open spec fn spec_find_internet_context(ctxs: Seq<
    (Seq<char>, Seq<(Seq<char>, PropValueV)>),
>) -> Seq<char> {
    match first_ctx_with_apn(ctxs) {
        Some(p) => p,
        None => match first_internet_ctx(ctxs) {
            Some(p) => p,
            None => "/ril_0/context2"@,
        },
    }
}

/// The view of a context list.
pub open spec fn ctxs_view(c: Seq<(String, PropList)>) -> Seq<
    (Seq<char>, Seq<(Seq<char>, PropValueV)>),
> {
    c.map_values(|e: (String, PropList)| (e.0@, props_view(e.1@)))
}

/// Select the internet context out of the service's context list.
pub fn find_internet_context(contexts: &Vec<(String, PropList)>) -> (r: String)
    ensures
        r@ == spec_find_internet_context(ctxs_view(contexts@)),
{
    let ghost cv = ctxs_view(contexts@);
    proof {
        assert(cv.skip(0) =~= cv);
        reveal_strlit("internet");
    }
    let mut first_internet: Option<String> = None;
    let mut i: usize = 0;
    while i < contexts.len()
        invariant
            0 <= i <= contexts@.len(),
            cv == ctxs_view(contexts@),
            cv.len() == contexts@.len(),
            forall|j: int|
                0 <= j < contexts@.len() ==> #[trigger] cv[j] == (contexts@[j].0@,
            props_view(contexts@[j].1@)),
            first_ctx_with_apn(cv) == first_ctx_with_apn(cv.skip(i as int)),
            match first_internet {
                Some(p) => first_internet_ctx(cv) == Some(p@),
                None => first_internet_ctx(cv) == first_internet_ctx(cv.skip(i as int)),
            },
        decreases contexts@.len() - i,
    {
        proof {
            assert(cv.skip(i as int).drop_first() =~= cv.skip(i + 1));
            assert(cv.skip(i as int)[0] == cv[i as int]);
        }
        let ctx_type = prop_get_str(&contexts[i].1, "Type", "");
        if str_eq(ctx_type.as_str(), "internet") {
            let apn = prop_get_str(&contexts[i].1, "AccessPointName", "");
            if !apn.as_str().is_empty() {
                return contexts[i].0.clone();
            }
            match &first_internet {
                Some(_) => {},
                None => {
                    first_internet = Some(contexts[i].0.clone());
                },
            }
        }
        i = i + 1;
    }
    proof {
        assert(cv.skip(cv.len() as int) =~= Seq::<
            (Seq<char>, Seq<(Seq<char>, PropValueV)>),
        >::empty());
    }
    match first_internet {
        Some(p) => p,
        None => String::from_str("/ril_0/context2"),
    }
}

/// The typed reading of the internet contexts, in order, with the wire
/// defaults for missing keys.
pub open spec fn spec_apn_contexts(ctxs: Seq<(Seq<char>, Seq<(Seq<char>, PropValueV)>)>)
    -> Seq<(Seq<Seq<char>>, bool)>
    decreases ctxs.len(),
{
    if ctxs.len() == 0 {
        Seq::empty()
    } else {
        let rest = spec_apn_contexts(ctxs.drop_first());
        if get_str(ctxs[0].1, "Type"@, ""@) == "internet"@ {
            seq![
                (spec_apn_fields(ctxs[0].0, ctxs[0].1), get_bool(ctxs[0].1, "Active"@, false)),
            ] + rest
        } else {
            rest
        }
    }
}

/// The fields of one internet context, in a fixed order: path, name,
/// APN, protocol, username, password and authentication method.
pub open spec fn spec_apn_fields(path: Seq<char>, props: Seq<(Seq<char>, PropValueV)>)
    -> Seq<Seq<char>> {
    seq![
        path,
        get_str(props, "Name"@, "Internet"@),
        get_str(props, "AccessPointName"@, ""@),
        get_str(props, "Protocol"@, "ip"@),
        get_str(props, "Username"@, ""@),
        get_str(props, "Password"@, ""@),
        get_str(props, "AuthenticationMethod"@, "chap"@),
    ]
}

/// The string fields of one typed context entry, in the fixed order.
pub open spec fn apn_entry_fields(c: ApnContext) -> Seq<Seq<char>> {
    seq![c.path@, c.name@, c.apn@, c.protocol@, c.username@, c.password@, c.auth_method@]
}

/// Read the internet contexts out of the service's context list, with
/// the wire defaults for missing keys.
pub fn apn_contexts_from(contexts: &Vec<(String, PropList)>) -> (r: Vec<ApnContext>)
    ensures
        r@.len() == spec_apn_contexts(ctxs_view(contexts@)).len(),
        forall|j: int|
            0 <= j < r@.len() ==> #[trigger] apn_entry_fields(r@[j]) == spec_apn_contexts(
                ctxs_view(contexts@),
            )[j].0,
        forall|j: int|
            0 <= j < r@.len() ==> #[trigger] r@[j].active == spec_apn_contexts(
                ctxs_view(contexts@),
            )[j].1,
        forall|j: int| 0 <= j < r@.len() ==> #[trigger] r@[j].context_type@ == "internet"@,
{
    let ghost cv = ctxs_view(contexts@);
    let ghost total = spec_apn_contexts(cv);
    proof {
        assert(cv.skip(0) =~= cv);
    }
    let mut out: Vec<ApnContext> = Vec::new();
    let ghost mut accv: Seq<(Seq<Seq<char>>, bool)> = Seq::empty();
    let mut i: usize = 0;
    while i < contexts.len()
        invariant
            0 <= i <= contexts@.len(),
            cv == ctxs_view(contexts@),
            total == spec_apn_contexts(cv),
            cv.len() == contexts@.len(),
            forall|j: int|
                0 <= j < contexts@.len() ==> #[trigger] cv[j] == (contexts@[j].0@,
            props_view(contexts@[j].1@)),
            total == accv + spec_apn_contexts(cv.skip(i as int)),
            out@.len() == accv.len(),
            forall|j: int| 0 <= j < out@.len() ==> #[trigger] apn_entry_fields(out@[j])
                == accv[j].0,
            forall|j: int| 0 <= j < out@.len() ==> #[trigger] out@[j].active == accv[j].1,
            forall|j: int| 0 <= j < out@.len() ==> #[trigger] out@[j].context_type@
                == "internet"@,
        decreases contexts@.len() - i,
    {
        proof {
            assert(cv.skip(i as int).drop_first() =~= cv.skip(i + 1));
            assert(cv.skip(i as int)[0] == cv[i as int]);
        }
        let props = &contexts[i].1;
        let ctx_type = prop_get_str(props, "Type", "");
        if str_eq(ctx_type.as_str(), "internet") {
            let c = ApnContext {
                path: contexts[i].0.clone(),
                name: prop_get_str(props, "Name", "Internet"),
                active: prop_get_bool(props, "Active", false),
                apn: prop_get_str(props, "AccessPointName", ""),
                protocol: prop_get_str(props, "Protocol", "ip"),
                username: prop_get_str(props, "Username", ""),
                password: prop_get_str(props, "Password", ""),
                auth_method: prop_get_str(props, "AuthenticationMethod", "chap"),
                context_type: ctx_type,
            };
            proof {
                assert(apn_entry_fields(c) =~~= spec_apn_fields(cv[i as int].0, cv[
                    i as int
                ].1));
                accv = accv.push(
                    (
                        spec_apn_fields(cv[i as int].0, cv[i as int].1),
                        get_bool(cv[i as int].1, "Active"@, false),
                    ),
                );
                assert(accv + spec_apn_contexts(cv.skip(i + 1)) =~= total);
            }
            out.push(c);
        }
        i = i + 1;
    }
    proof {
        assert(cv.skip(cv.len() as int) =~= Seq::<
            (Seq<char>, Seq<(Seq<char>, PropValueV)>),
        >::empty());
        assert(total =~= accv);
    }
    out
}

/// Read one live call entry: the direction is incoming exactly when the
/// call state reads `incoming`.
pub fn call_entry_from_props(path: &str, props: &PropList) -> (r: CallInfo)
    ensures
        r.path@ == path@,
        r.phone_number@ == get_str(props_view(props@), "LineIdentification"@, "Unknown"@),
        r.state@ == get_str(props_view(props@), "State"@, "unknown"@),
        (r.start_time is Some <==> get_str_opt(props_view(props@), "StartTime"@) is Some),
        r.direction@ == (if get_str(props_view(props@), "State"@, "unknown"@) == "incoming"@ {
            "incoming"@
        } else {
            "outgoing"@
        }),
{
    let state = prop_get_str(props, "State", "unknown");
    let direction = if str_eq(state.as_str(), "incoming") {
        String::from_str("incoming")
    } else {
        String::from_str("outgoing")
    };
    CallInfo {
        path: String::from_str(path),
        phone_number: prop_get_str(props, "LineIdentification", "Unknown"),
        state,
        direction,
        start_time: prop_get_str_opt(props, "StartTime"),
    }
}

/// The call entry a fresh dial reports: state `dialing`, direction
/// `outgoing`, with the caller-supplied start stamp.
pub fn dialed_call_info(path: &str, phone_number: &str, start_time: String) -> (r: CallInfo)
    ensures
        r.path@ == path@,
        r.phone_number@ == phone_number@,
        r.state@ == "dialing"@,
        r.direction@ == "outgoing"@,
        r.start_time is Some && r.start_time->0@ == start_time@,
{
    CallInfo {
        path: String::from_str(path),
        phone_number: String::from_str(phone_number),
        state: String::from_str("dialing"),
        direction: String::from_str("outgoing"),
        start_time: Some(start_time),
    }
}

/// Read one operator entry, with the wire defaults.
pub fn operator_from_props(path: &str, props: &PropList) -> (r: OperatorInfo)
    ensures
        r.path@ == path@,
        r.name@ == get_str(props_view(props@), "Name"@, "Unknown"@),
        r.status@ == get_str(props_view(props@), "Status"@, "unknown"@),
        r.mcc@ == get_str(props_view(props@), "MobileCountryCode"@, ""@),
        r.mnc@ == get_str(props_view(props@), "MobileNetworkCode"@, ""@),
        r.technologies.deep_view() == get_strlist(props_view(props@), "Technologies"@),
{
    OperatorInfo {
        path: String::from_str(path),
        name: prop_get_str(props, "Name", "Unknown"),
        status: prop_get_str(props, "Status", "unknown"),
        mcc: prop_get_str(props, "MobileCountryCode", ""),
        mnc: prop_get_str(props, "MobileNetworkCode", ""),
        technologies: prop_get_strlist(props, "Technologies"),
    }
}

/// A numeric property read the tolerant way the cell monitor needs:
/// an exact unsigned value, or a string holding a decimal or
/// hexadecimal number.
pub open spec fn key_u32(props: Seq<(Seq<char>, PropValueV)>, key: Seq<char>) -> Option<u32> {
    match lookup(props, key) {
        Some(PropValueV::UInt(n)) => Some(n),
        Some(PropValueV::Str(s)) => match spec_parse_u64(s, 0x1_0000_0000) {
            Some(v) => Some(v as u32),
            None => match crate::text::spec_parse_hex(s, 0x1_0000_0000) {
                Some(v) => Some(v as u32),
                None => None,
            },
        },
        _ => None,
    }
}

/// The first readable value among several candidate keys, else 0.
pub open spec fn parse_u32_keys(props: Seq<(Seq<char>, PropValueV)>, keys: Seq<Seq<char>>,
    i: int) -> u32
    decreases keys.len() - i,
{
    if i < 0 || i >= keys.len() {
        0
    } else {
        match key_u32(props, keys[i]) {
            Some(v) => v,
            None => parse_u32_keys(props, keys, i + 1),
        }
    }
}

/// The view of a key list.
pub open spec fn keys_view(keys: Seq<&str>) -> Seq<Seq<char>> {
    keys.map_values(|k: &str| k@)
}

/// Read a numeric property, trying several keys in order.
pub fn prop_u32_from_keys(props: &PropList, keys: &Vec<&str>) -> (r: u32)
    ensures
        r == parse_u32_keys(props_view(props@), keys_view(keys@), 0),
{
    let ghost pv = props_view(props@);
    let ghost kv = keys_view(keys@);
    let mut i: usize = 0;
    while i < keys.len()
        invariant
            0 <= i <= keys@.len(),
            pv == props_view(props@),
            kv == keys_view(keys@),
            kv.len() == keys@.len(),
            forall|j: int| 0 <= j < keys@.len() ==> #[trigger] kv[j] == keys@[j]@,
            parse_u32_keys(pv, kv, 0) == parse_u32_keys(pv, kv, i as int),
        decreases keys@.len() - i,
    {
        match prop_lookup(props, keys[i]) {
            Some(PropValue::UInt(n)) => {
                return *n;
            },
            Some(PropValue::Str(text)) => {
                let cs = chars_of(text.as_str());
                match parse_u64_bounded(&cs, 0x1_0000_0000) {
                    Some(v) => {
                        return v as u32;
                    },
                    None => {
                        match crate::text::parse_hex_bounded(&cs, 0x1_0000_0000) {
                            Some(v) => {
                                return v as u32;
                            },
                            None => {},
                        }
                    },
                }
            },
            _ => {},
        }
        i = i + 1;
    }
    0
}

/// Assemble the serving-cell snapshot: the technology name and the
/// cell and tracking-area numbers under their known key spellings.
pub fn serving_cell_from_props(props: &PropList) -> (r: crate::models::ServingCell)
    ensures
        r.tech@ == get_str(props_view(props@), "Technology"@, "unknown"@),
        r.cell_id == parse_u32_keys(
            props_view(props@),
            seq!["NCellId"@, "CellId"@, "NRCellID"@],
            0,
        ),
        r.tac == parse_u32_keys(props_view(props@), seq!["TrackingAreaCode"@], 0),
{
    let cell_keys: Vec<&str> = vec!["NCellId", "CellId", "NRCellID"];
    let tac_keys: Vec<&str> = vec!["TrackingAreaCode"];
    proof {
        assert(keys_view(cell_keys@) =~= seq!["NCellId"@, "CellId"@, "NRCellID"@]);
        assert(keys_view(tac_keys@) =~= seq!["TrackingAreaCode"@]);
    }
    crate::models::ServingCell {
        tech: prop_get_str(props, "Technology", "unknown"),
        cell_id: prop_u32_from_keys(props, &cell_keys),
        tac: prop_u32_from_keys(props, &tac_keys),
    }
}

/// Assemble the IMS report.
pub fn ims_status_from_props(props: &PropList) -> (r: crate::models::ImsStatusResponse)
    ensures
        r.registered == get_bool(props_view(props@), "Registered"@, false),
        r.voice_capable == get_bool(props_view(props@), "VoiceCapable"@, false),
        r.sms_capable == get_bool(props_view(props@), "SmsCapable"@, false),
{
    crate::models::ImsStatusResponse {
        registered: prop_get_bool(props, "Registered", false),
        voice_capable: prop_get_bool(props, "VoiceCapable", false),
        sms_capable: prop_get_bool(props, "SmsCapable", false),
    }
}

/// Assemble the call-volume report.
pub fn call_volume_from_props(props: &PropList) -> (r: crate::models::CallVolumeResponse)
    ensures
        r.speaker_volume == get_byte(props_view(props@), "SpeakerVolume"@, 0),
        r.microphone_volume == get_byte(props_view(props@), "MicrophoneVolume"@, 0),
        r.muted == get_bool(props_view(props@), "Muted"@, false),
{
    crate::models::CallVolumeResponse {
        speaker_volume: prop_get_byte(props, "SpeakerVolume", 0),
        microphone_volume: prop_get_byte(props, "MicrophoneVolume", 0),
        muted: prop_get_bool(props, "Muted", false),
    }
}

/// Assemble the voicemail report.
pub fn voicemail_from_props(props: &PropList) -> (r: crate::models::VoicemailStatusResponse)
    ensures
        r.waiting == get_bool(props_view(props@), "VoicemailWaiting"@, false),
        r.message_count == get_byte(props_view(props@), "VoicemailMessageCount"@, 0),
        r.mailbox_number@ == get_str(props_view(props@), "VoicemailMailboxNumber"@, ""@),
{
    crate::models::VoicemailStatusResponse {
        waiting: prop_get_bool(props, "VoicemailWaiting", false),
        message_count: prop_get_byte(props, "VoicemailMessageCount", 0),
        mailbox_number: prop_get_str(props, "VoicemailMailboxNumber", ""),
    }
}

/// Assemble the call-forwarding report.
pub fn call_forwarding_from_props(props: &PropList) -> (r:
    crate::models::CallForwardingResponse)
    ensures
        r.voice_unconditional@ == get_str(props_view(props@), "VoiceUnconditional"@, ""@),
        r.voice_busy@ == get_str(props_view(props@), "VoiceBusy"@, ""@),
        r.voice_no_reply@ == get_str(props_view(props@), "VoiceNoReply"@, ""@),
        r.voice_no_reply_timeout == get_word(props_view(props@), "VoiceNoReplyTimeout"@, 20),
        r.voice_not_reachable@ == get_str(props_view(props@), "VoiceNotReachable"@, ""@),
        r.forwarding_flag_on_sim == get_bool(props_view(props@), "ForwardingFlagOnSim"@, false),
{
    crate::models::CallForwardingResponse {
        voice_unconditional: prop_get_str(props, "VoiceUnconditional", ""),
        voice_busy: prop_get_str(props, "VoiceBusy", ""),
        voice_no_reply: prop_get_str(props, "VoiceNoReply", ""),
        voice_no_reply_timeout: prop_get_word(props, "VoiceNoReplyTimeout", 20),
        voice_not_reachable: prop_get_str(props, "VoiceNotReachable", ""),
        forwarding_flag_on_sim: prop_get_bool(props, "ForwardingFlagOnSim", false),
    }
}

/// The forwarding property a request type names; rejected when unknown.
pub fn forwarding_property_name(forward_type: &str) -> (r: Option<&'static str>)
    ensures
        forward_type@ == "unconditional"@ ==> r is Some && r->0@ == "VoiceUnconditional"@,
        forward_type@ == "busy"@ ==> r is Some && r->0@ == "VoiceBusy"@,
        forward_type@ == "noreply"@ ==> r is Some && r->0@ == "VoiceNoReply"@,
        forward_type@ == "notreachable"@ ==> r is Some && r->0@ == "VoiceNotReachable"@,
        forward_type@ != "unconditional"@ && forward_type@ != "busy"@ && forward_type@
            != "noreply"@ && forward_type@ != "notreachable"@ ==> r is None,
{
    proof {
        reveal_strlit("unconditional");
        reveal_strlit("busy");
        reveal_strlit("noreply");
        reveal_strlit("notreachable");
        assert("unconditional"@.len() == 13);
        assert("busy"@.len() == 4);
        assert("noreply"@.len() == 7);
        assert("notreachable"@.len() == 12);
    }
    if str_eq(forward_type, "unconditional") {
        Some("VoiceUnconditional")
    } else if str_eq(forward_type, "busy") {
        Some("VoiceBusy")
    } else if str_eq(forward_type, "noreply") {
        Some("VoiceNoReply")
    } else if str_eq(forward_type, "notreachable") {
        Some("VoiceNotReachable")
    } else {
        None
    }
}

/// Assemble the call-settings report.
pub fn call_settings_from_props(props: &PropList) -> (r: crate::models::CallSettingsResponse)
    ensures
        r.calling_line_presentation@ == get_str(
            props_view(props@),
            "CallingLinePresentation"@,
            "unknown"@,
        ),
        r.calling_name_presentation@ == get_str(
            props_view(props@),
            "CallingNamePresentation"@,
            "unknown"@,
        ),
        r.connected_line_presentation@ == get_str(
            props_view(props@),
            "ConnectedLinePresentation"@,
            "unknown"@,
        ),
        r.connected_line_restriction@ == get_str(
            props_view(props@),
            "ConnectedLineRestriction"@,
            "unknown"@,
        ),
        r.called_line_presentation@ == get_str(
            props_view(props@),
            "CalledLinePresentation"@,
            "unknown"@,
        ),
        r.calling_line_restriction@ == get_str(
            props_view(props@),
            "CallingLineRestriction"@,
            "unknown"@,
        ),
        r.hide_caller_id@ == get_str(props_view(props@), "HideCallerId"@, "default"@),
        r.voice_call_waiting@ == get_str(props_view(props@), "VoiceCallWaiting"@, "unknown"@),
{
    crate::models::CallSettingsResponse {
        calling_line_presentation: prop_get_str(props, "CallingLinePresentation", "unknown"),
        calling_name_presentation: prop_get_str(props, "CallingNamePresentation", "unknown"),
        connected_line_presentation: prop_get_str(
            props,
            "ConnectedLinePresentation",
            "unknown",
        ),
        connected_line_restriction: prop_get_str(props, "ConnectedLineRestriction", "unknown"),
        called_line_presentation: prop_get_str(props, "CalledLinePresentation", "unknown"),
        calling_line_restriction: prop_get_str(props, "CallingLineRestriction", "unknown"),
        hide_caller_id: prop_get_str(props, "HideCallerId", "default"),
        voice_call_waiting: prop_get_str(props, "VoiceCallWaiting", "unknown"),
    }
}

/// A QoS field read as `u32` with default 0.
pub open spec fn qos_field_u32(parts: Seq<Seq<char>>, i: int) -> u32 {
    if 0 <= i < parts.len() {
        match spec_parse_u64(spec_trim(parts[i]), 0x1_0000_0000) {
            Some(v) => v as u32,
            None => 0,
        }
    } else {
        0
    }
}

/// A QoS field read as `u8` with default 0.
pub open spec fn qos_field_u8(parts: Seq<Seq<char>>, i: int) -> u8 {
    if 0 <= i < parts.len() {
        match spec_parse_u64(spec_trim(parts[i]), 256) {
            Some(v) => v as u8,
            None => 0,
        }
    } else {
        0
    }
}

/// The first positive of the guaranteed, maximum and aggregate rates.
pub open spec fn qos_speed(gbr: u32, mbr: u32, ambr: u32) -> u32 {
    if gbr > 0 {
        gbr
    } else if mbr > 0 {
        mbr
    } else {
        ambr
    }
}

/// The fields of a `+CGEQOSRDP:` report line, when it carries at least
/// the eight expected.
pub open spec fn qos_line_fields(line: Seq<char>) -> Option<Seq<Seq<char>>> {
    let t = spec_trim(line);
    if starts_with(t, "+CGEQOSRDP:"@) {
        Some(spec_split(spec_trim(t.skip("+CGEQOSRDP:"@.len() as int)), ','))
    } else {
        None
    }
}

/// Scan of a QoS reply: the first marker line with at least eight
/// fields gives the figures; otherwise the reply is unreadable.
pub open spec fn scan_qos(lines: Seq<Seq<char>>) -> Option<(u8, u32, u32)>
    decreases lines.len(),
{
    if lines.len() == 0 {
        None
    } else {
        let f = qos_line_fields(lines[0]);
        if f is Some && f->0.len() >= 8 {
            let parts = f->0;
            Some(
                (
                    qos_field_u8(parts, 1),
                    qos_speed(
                        qos_field_u32(parts, 2),
                        qos_field_u32(parts, 4),
                        qos_field_u32(parts, 6),
                    ),
                    qos_speed(
                        qos_field_u32(parts, 3),
                        qos_field_u32(parts, 5),
                        qos_field_u32(parts, 7),
                    ),
                ),
            )
        } else {
            scan_qos(lines.drop_first())
        }
    }
}

/// Parse a `AT+CGEQOSRDP` reply.  A readable reply carries no raw text;
/// an unreadable one is echoed back with zero figures.
pub fn parse_qos_response(response: &str) -> (r: QosInfoResponse)
    ensures
        scan_qos(spec_lines(response@)) is Some ==> {
            let f = scan_qos(spec_lines(response@))->0;
            r.qci == f.0 && r.dl_speed == f.1 && r.ul_speed == f.2 && r.raw_response is None
        },
        scan_qos(spec_lines(response@)) is None ==> r.qci == 0 && r.dl_speed == 0
            && r.ul_speed == 0 && r.raw_response is Some && r.raw_response->0@ == response@,
{
    let cs = chars_of(response);
    let lines = lines_of(&cs);
    let ghost all = spec_lines(response@);
    proof {
        assert(all.skip(0) =~= all);
    }
    let marker = chars_of("+CGEQOSRDP:");
    let mut i: usize = 0;
    while i < lines.len()
        invariant
            all == spec_lines(response@),
            0 <= i <= lines@.len(),
            lines@.len() == all.len(),
            forall|j: int| 0 <= j < lines@.len() ==> #[trigger] lines@[j]@ == all[j],
            marker@ == "+CGEQOSRDP:"@,
            scan_qos(all) == scan_qos(all.skip(i as int)),
        decreases lines@.len() - i,
    {
        proof {
            assert(all.skip(i as int).drop_first() =~= all.skip(i + 1));
            assert(all.skip(i as int)[0] == all[i as int]);
        }
        let t = trim_chars(&lines[i]);
        if starts_with_chars(&t, &marker) {
            let mut rest: Vec<char> = Vec::new();
            let mut k: usize = marker.len();
            while k < t.len()
                invariant
                    marker@.len() <= k <= t@.len(),
                    rest@ == t@.subrange(marker@.len() as int, k as int),
                decreases t@.len() - k,
            {
                rest.push(t[k]);
                assert(rest@ =~= t@.subrange(marker@.len() as int, k + 1));
                k = k + 1;
            }
            assert(rest@ =~= t@.skip(marker@.len() as int));
            let trimmed = trim_chars(&rest);
            let parts = split_chars(&trimmed, ',');
            proof {
                lemma_nested_view(&parts);
            }
            let ghost fields = qos_line_fields(all[i as int])->0;
            if parts.len() >= 8 {
                let qci = qos_part_u8(&parts, 1, Ghost(fields));
                let dl_gbr = qos_part_u32(&parts, 2, Ghost(fields));
                let ul_gbr = qos_part_u32(&parts, 3, Ghost(fields));
                let dl_mbr = qos_part_u32(&parts, 4, Ghost(fields));
                let ul_mbr = qos_part_u32(&parts, 5, Ghost(fields));
                let dl_ambr = qos_part_u32(&parts, 6, Ghost(fields));
                let ul_ambr = qos_part_u32(&parts, 7, Ghost(fields));
                let dl_speed = if dl_gbr > 0 {
                    dl_gbr
                } else if dl_mbr > 0 {
                    dl_mbr
                } else {
                    dl_ambr
                };
                let ul_speed = if ul_gbr > 0 {
                    ul_gbr
                } else if ul_mbr > 0 {
                    ul_mbr
                } else {
                    ul_ambr
                };
                proof {
                    assert(qos_line_fields(all.skip(i as int)[0]) is Some);
                    assert(scan_qos(all.skip(i as int)) == Some(
                        (
                            qos_field_u8(fields, 1),
                            qos_speed(
                                qos_field_u32(fields, 2),
                                qos_field_u32(fields, 4),
                                qos_field_u32(fields, 6),
                            ),
                            qos_speed(
                                qos_field_u32(fields, 3),
                                qos_field_u32(fields, 5),
                                qos_field_u32(fields, 7),
                            ),
                        ),
                    ));
                }
                return QosInfoResponse { qci, dl_speed, ul_speed, raw_response: None };
            }
        }
        i = i + 1;
    }
    proof {
        assert(all.skip(all.len() as int) =~= Seq::<Seq<char>>::empty());
    }
    QosInfoResponse {
        qci: 0,
        dl_speed: 0,
        ul_speed: 0,
        raw_response: Some(String::from_str(response)),
    }
}

/// Field `i` of a QoS fields vector, parsed as `u32` with default 0.
fn qos_part_u32(parts: &Vec<Vec<char>>, i: usize, ghost_fields: Ghost<Seq<Seq<char>>>) -> (r:
    u32)
    requires
        parts@.len() == ghost_fields@.len(),
        forall|j: int| 0 <= j < parts@.len() ==> #[trigger] parts@[j]@ == ghost_fields@[j],
    ensures
        r == qos_field_u32(ghost_fields@, i as int),
{
    if i >= parts.len() {
        return 0;
    }
    let t = trim_chars(&parts[i]);
    match parse_u64_bounded(&t, 0x1_0000_0000) {
        Some(v) => v as u32,
        None => 0,
    }
}

/// Field `i` of a QoS fields vector, parsed as `u8` with default 0.
fn qos_part_u8(parts: &Vec<Vec<char>>, i: usize, ghost_fields: Ghost<Seq<Seq<char>>>) -> (r: u8)
    requires
        parts@.len() == ghost_fields@.len(),
        forall|j: int| 0 <= j < parts@.len() ==> #[trigger] parts@[j]@ == ghost_fields@[j],
    ensures
        r == qos_field_u8(ghost_fields@, i as int),
{
    if i >= parts.len() {
        return 0;
    }
    let t = trim_chars(&parts[i]);
    match parse_u64_bounded(&t, 256) {
        Some(v) => v as u8,
        None => 0,
    }
}

/// The slot a configuration report denotes: slot 1 when the value names
/// `66051`, slot 2 for `66306`, 0 when unreadable.
pub open spec fn spec_slot_of_value(raw: Seq<char>) -> u8 {
    if spec_find(raw, "66051"@) is Some {
        1
    } else if spec_find(raw, "66306"@) is Some {
        2
    } else {
        0
    }
}

/// The raw configuration value in a `+SPCONFIGSIMSLOT:` reply: the
/// trimmed text after the colon of the first line naming the marker.
pub open spec fn scan_sim_slot(lines: Seq<Seq<char>>) -> Seq<char>
    decreases lines.len(),
{
    if lines.len() == 0 {
        Seq::empty()
    } else if spec_find(lines[0], "+SPCONFIGSIMSLOT:"@) is Some {
        let parts = spec_split(lines[0], ':');
        if parts.len() >= 2 {
            spec_trim(parts[1])
        } else {
            Seq::empty()
        }
    } else {
        scan_sim_slot(lines.drop_first())
    }
}

/// Parse a SIM-slot configuration reply.
pub fn parse_sim_slot_response(response: &str) -> (r: SimSlotResponse)
    ensures
        r.raw_value@ == scan_sim_slot(spec_lines(response@)),
        r.active_slot == spec_slot_of_value(scan_sim_slot(spec_lines(response@))),
{
    let cs = chars_of(response);
    let lines = lines_of(&cs);
    let ghost all = spec_lines(response@);
    proof {
        assert(all.skip(0) =~= all);
    }
    let marker = chars_of("+SPCONFIGSIMSLOT:");
    let mut raw: String = String::new();
    let mut found: bool = false;
    let mut i: usize = 0;
    while i < lines.len()
        invariant
            all == spec_lines(response@),
            0 <= i <= lines@.len(),
            lines@.len() == all.len(),
            forall|j: int| 0 <= j < lines@.len() ==> #[trigger] lines@[j]@ == all[j],
            marker@ == "+SPCONFIGSIMSLOT:"@,
            !found ==> scan_sim_slot(all) == scan_sim_slot(all.skip(i as int)),
            !found ==> raw@.len() == 0,
            found ==> raw@ == scan_sim_slot(all),
        decreases lines@.len() - i,
    {
        proof {
            assert(all.skip(i as int).drop_first() =~= all.skip(i + 1));
            assert(all.skip(i as int)[0] == all[i as int]);
        }
        if !found {
            if contains_subseq(&lines[i], &marker) {
                let parts = split_chars(&lines[i], ':');
                proof {
                    lemma_nested_view(&parts);
                }
                if parts.len() >= 2 {
                    let t = trim_chars(&parts[1]);
                    raw = string_of(&t);
                } else {
                    raw = String::new();
                    proof {
                        assert(raw@ =~= Seq::<char>::empty());
                    }
                }
                found = true;
            }
        }
        i = i + 1;
    }
    proof {
        if !found {
            assert(all.skip(all.len() as int) =~= Seq::<Seq<char>>::empty());
            assert(raw@ =~= Seq::<char>::empty());
        }
    }
    let rv = chars_of(raw.as_str());
    let active_slot: u8 = if contains_subseq(&rv, &chars_of("66051")) {
        1
    } else if contains_subseq(&rv, &chars_of("66306")) {
        2
    } else {
        0
    };
    SimSlotResponse { active_slot, raw_value: raw }
}

/// The slot-switch AT command: the vendor value for slot 1 or 2; other
/// slots are rejected.
pub fn build_sim_slot_command(slot: u8) -> (r: Option<String>)
    ensures
        slot == 1 ==> r is Some && r->0@ == "AT+SPCONFIGSIMSLOT=66051"@,
        slot == 2 ==> r is Some && r->0@ == "AT+SPCONFIGSIMSLOT=66306"@,
        slot != 1 && slot != 2 ==> r is None,
{
    if slot == 1 {
        Some(String::from_str("AT+SPCONFIGSIMSLOT=66051"))
    } else if slot == 2 {
        Some(String::from_str("AT+SPCONFIGSIMSLOT=66306"))
    } else {
        None
    }
}

} // verus!
