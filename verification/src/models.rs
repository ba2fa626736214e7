//! Request and response shapes of the management API.
//!
//! Plain data carried between the HTTP shell and the core.  The shell
//! owns serialization; these types only hold the values.

use vstd::prelude::*;
use crate::cells::CellInfo;
use crate::store::{CallRecord, CallStats};
use crate::text::str_eq;

verus! {

/// The uniform reply envelope.
pub struct ApiResponse<T> {
    pub status: String,
    pub message: String,
    pub data: Option<T>,
}

impl<T> ApiResponse<T> {
    /// A success envelope with a message and a payload.
    pub fn success_with_message(message: &str, data: T) -> (r: ApiResponse<T>)
        ensures
            r.status@ == "ok"@,
            r.message@ == message@,
            r.data is Some,
    {
        ApiResponse {
            status: String::from_str("ok"),
            message: String::from_str(message),
            data: Some(data),
        }
    }

    /// An error envelope with a message and no payload.
    pub fn error(message: &str) -> (r: ApiResponse<T>)
        ensures
            r.status@ == "error"@,
            r.message@ == message@,
            r.data is None,
    {
        ApiResponse {
            status: String::from_str("error"),
            message: String::from_str(message),
            data: None,
        }
    }
}

pub struct AtCommandRequest {
    pub cmd: String,
}

/// The serving cell snapshot.
pub struct ServingCell {
    pub tech: String,
    pub cell_id: u32,
    pub tac: u32,
}

pub struct CellsResponse {
    pub serving_cell: ServingCell,
    pub cells: Vec<CellInfo>,
}

pub struct DeviceInfoResponse {
    pub imei: String,
    pub manufacturer: String,
    pub model: String,
    pub revision: Option<String>,
    pub online: bool,
    pub powered: bool,
}

pub struct DataConnectionRequest {
    pub active: bool,
}

pub struct DataConnectionResponse {
    pub active: bool,
}

pub struct RoamingRequest {
    pub allowed: bool,
}

pub struct RoamingResponse {
    pub roaming_allowed: bool,
    pub is_roaming: bool,
}

pub struct AirplaneModeRequest {
    pub enabled: bool,
}

pub struct AirplaneModeResponse {
    pub enabled: bool,
    pub powered: bool,
    pub online: bool,
}

pub struct SimInfoResponse {
    pub present: bool,
    pub iccid: String,
    pub imsi: String,
    pub phone_numbers: Vec<String>,
    pub sms_center: String,
    pub mcc: String,
    pub mnc: String,
    pub pin_required: String,
    pub preferred_languages: Vec<String>,
}

pub struct SimSlotResponse {
    pub active_slot: u8,
    pub raw_value: String,
}

pub struct SwitchSimSlotRequest {
    pub slot: u8,
}

pub struct NetworkInfoResponse {
    pub operator_name: String,
    pub registration_status: String,
    pub technology_preference: String,
    pub signal_strength: u8,
    pub mcc: Option<String>,
    pub mnc: Option<String>,
}

pub struct QosInfoResponse {
    pub qci: u8,
    pub dl_speed: u32,
    pub ul_speed: u32,
    pub raw_response: Option<String>,
}

/// The three switchable USB personalities.
pub enum UsbMode {
    CdcNcm,
    CdcEcm,
    Rndis,
}

impl UsbMode {
    /// The mode number the gadget tables use.
    pub fn mode_number(&self) -> (r: u8)
        ensures
            self is CdcNcm ==> r == 1,
            self is CdcEcm ==> r == 2,
            self is Rndis ==> r == 3,
    {
        match self {
            UsbMode::CdcNcm => 1,
            UsbMode::CdcEcm => 2,
            UsbMode::Rndis => 3,
        }
    }
}

pub struct SetUsbModeRequest {
    pub mode: u8,
    pub permanent: bool,
}

pub struct UsbModeResponse {
    pub current_mode: Option<u8>,
    pub current_mode_name: String,
    pub permanent_mode: Option<u8>,
    pub temporary_mode: Option<u8>,
    pub needs_reboot: bool,
    pub read_mode: String,
}

pub struct SystemRebootRequest {
    pub delay_seconds: u32,
}

pub struct NetworkSpeed {
    pub interface: String,
    pub rx_bytes_per_sec: u64,
    pub tx_bytes_per_sec: u64,
    pub total_rx_bytes: u64,
    pub total_tx_bytes: u64,
}

pub struct UptimeInfo {
    pub uptime_seconds: u64,
    pub idle_seconds: u64,
    pub uptime_formatted: String,
}

pub struct SystemInfo {
    pub sysname: String,
    pub nodename: String,
    pub release: String,
    pub version: String,
    pub machine: String,
    pub domainname: String,
    pub full_info: String,
}

pub struct CpuCore {
    pub processor: u32,
    pub bogomips: String,
    pub features: Vec<String>,
    pub implementer: String,
    pub architecture: String,
    pub variant: String,
    pub part: String,
    pub revision: String,
}

pub struct CpuInfo {
    pub core_count: u32,
    pub cores: Vec<CpuCore>,
    pub hardware: String,
    pub serial: String,
    pub model_name: String,
}

pub struct CellLocationInfo {
    pub mcc: String,
    pub mnc: String,
    pub lac: u32,
    pub cid: u32,
    pub signal_strength: i32,
    pub radio_type: String,
    pub arfcn: Option<u32>,
    pub pci: Option<u32>,
    pub rsrq: Option<i32>,
    pub sinr: Option<i32>,
}

pub struct CellLocationResponse {
    pub available: bool,
    pub cell_info: Option<CellLocationInfo>,
    pub neighbor_cells: Vec<CellLocationInfo>,
    pub usage_hint: String,
}

pub struct IpAddress {
    pub address: String,
    pub prefix_len: u8,
    pub ip_type: String,
    pub scope: String,
}

pub struct NetworkInterfaceInfo {
    pub name: String,
    pub status: String,
    pub mac_address: Option<String>,
    pub mtu: u32,
    pub ip_addresses: Vec<IpAddress>,
    pub rx_bytes: u64,
    pub tx_bytes: u64,
    pub rx_packets: u64,
    pub tx_packets: u64,
    pub rx_errors: u64,
    pub tx_errors: u64,
}

pub struct NetworkInterfacesResponse {
    pub interfaces: Vec<NetworkInterfaceInfo>,
    pub total_count: usize,
}

/// The radio technology preference.
pub enum RadioMode {
    Auto,
    LteOnly,
    NrOnly,
}

/// The preference value a mode writes.
pub open spec fn spec_radio_to_ofono(m: RadioMode) -> Seq<char> {
    match m {
        RadioMode::Auto => "NR 5G/LTE auto"@,
        RadioMode::LteOnly => "LTE only"@,
        RadioMode::NrOnly => "NR 5G only"@,
    }
}

/// The mode a preference value denotes, with the older automatic
/// variants accepted on read.
pub open spec fn spec_radio_from_ofono(value: Seq<char>) -> Option<RadioMode> {
    if value == "NR 5G/LTE auto"@ || value == "LTE/GSM/WCDMA auto"@ || value
        == "NR 5G/LTE/GSM/WCDMA auto"@ {
        Some(RadioMode::Auto)
    } else if value == "LTE only"@ {
        Some(RadioMode::LteOnly)
    } else if value == "NR 5G only"@ {
        Some(RadioMode::NrOnly)
    } else {
        None
    }
}

impl RadioMode {
    /// The preference string written for this mode.
    pub fn to_ofono_value(&self) -> (r: &'static str)
        ensures
            r@ == spec_radio_to_ofono(*self),
    {
        match self {
            RadioMode::Auto => "NR 5G/LTE auto",
            RadioMode::LteOnly => "LTE only",
            RadioMode::NrOnly => "NR 5G only",
        }
    }

    /// The mode a preference string denotes.
    pub fn from_ofono_value(value: &str) -> (r: Option<RadioMode>)
        ensures
            r is Some <==> spec_radio_from_ofono(value@) is Some,
            r is Some ==> r->0 == spec_radio_from_ofono(value@)->0,
    {
        if str_eq(value, "NR 5G/LTE auto") || str_eq(value, "LTE/GSM/WCDMA auto") || str_eq(
            value,
            "NR 5G/LTE/GSM/WCDMA auto",
        ) {
            Some(RadioMode::Auto)
        } else if str_eq(value, "LTE only") {
            Some(RadioMode::LteOnly)
        } else if str_eq(value, "NR 5G only") {
            Some(RadioMode::NrOnly)
        } else {
            None
        }
    }
}

pub struct RadioModeResponse {
    pub mode: String,
    pub technology_preference: String,
}

pub struct RadioModeRequest {
    pub mode: RadioMode,
}

pub struct BandLockStatus {
    pub locked: bool,
    pub lte_fdd_bands: Vec<u8>,
    pub lte_tdd_bands: Vec<u8>,
    pub nr_fdd_bands: Vec<u8>,
    pub nr_tdd_bands: Vec<u8>,
    pub raw_response: Option<String>,
}

pub struct BandLockRequest {
    pub lte_fdd_bands: Vec<u8>,
    pub lte_tdd_bands: Vec<u8>,
    pub nr_fdd_bands: Vec<u8>,
    pub nr_tdd_bands: Vec<u8>,
}

pub struct CellLockRatStatus {
    pub rat: u8,
    pub rat_name: String,
    pub enabled: bool,
    pub lock_type: u8,
    pub pci: Option<u16>,
    pub arfcn: Option<u32>,
}

pub struct CellLockStatusResponse {
    pub rat_status: Vec<CellLockRatStatus>,
    pub any_locked: bool,
}

pub struct CellLockRequest {
    pub rat: u8,
    pub enable: bool,
    pub lock_type: u8,
    pub pci: Option<u16>,
    pub arfcn: Option<u32>,
}

/// The stock radio-technology code for cell locking.
pub fn default_nr_rat() -> (r: u8)
    ensures
        r == 16,
{
    16
}

pub struct CellUnlockRequest {
}

pub struct MakeCallRequest {
    pub phone_number: String,
}

/// One live call.
pub struct CallInfo {
    pub path: String,
    pub phone_number: String,
    pub state: String,
    pub direction: String,
    pub start_time: Option<String>,
}

impl Default for CallInfo {
    /// The empty call entry.
    fn default() -> (r: CallInfo)
        ensures
            r.path@.len() == 0,
            r.phone_number@.len() == 0,
            r.state@.len() == 0,
            r.direction@.len() == 0,
            r.start_time is None,
    {
        CallInfo {
            path: String::new(),
            phone_number: String::new(),
            state: String::new(),
            direction: String::new(),
            start_time: None,
        }
    }
}

pub struct CallListResponse {
    pub calls: Vec<CallInfo>,
}

impl Default for CallListResponse {
    /// The empty call list.
    fn default() -> (r: CallListResponse)
        ensures
            r.calls@.len() == 0,
    {
        CallListResponse { calls: Vec::new() }
    }
}

pub struct HangupCallRequest {
    pub path: String,
}

pub struct NitzTimeResponse {
    pub time_string: String,
    pub available: bool,
}

pub struct ImsStatusResponse {
    pub registered: bool,
    pub voice_capable: bool,
    pub sms_capable: bool,
}

pub struct CallVolumeResponse {
    pub speaker_volume: u8,
    pub microphone_volume: u8,
    pub muted: bool,
}

pub struct SetCallVolumeRequest {
    pub speaker_volume: Option<u8>,
    pub microphone_volume: Option<u8>,
    pub muted: Option<bool>,
}

pub struct VoicemailStatusResponse {
    pub waiting: bool,
    pub message_count: u8,
    pub mailbox_number: String,
}

pub struct OperatorInfo {
    pub path: String,
    pub name: String,
    pub status: String,
    pub mcc: String,
    pub mnc: String,
    pub technologies: Vec<String>,
}

pub struct OperatorListResponse {
    pub operators: Vec<OperatorInfo>,
}

pub struct ManualRegisterRequest {
    pub mccmnc: String,
}

pub struct ImeisvResponse {
    pub software_version_number: String,
}

pub struct SignalStrengthResponse {
    pub strength: i32,
}

pub struct CallForwardingResponse {
    pub voice_unconditional: String,
    pub voice_busy: String,
    pub voice_no_reply: String,
    pub voice_no_reply_timeout: u16,
    pub voice_not_reachable: String,
    pub forwarding_flag_on_sim: bool,
}

pub struct SetCallForwardingRequest {
    pub forward_type: String,
    pub number: String,
    pub timeout: Option<u16>,
}

pub struct CallSettingsResponse {
    pub calling_line_presentation: String,
    pub calling_name_presentation: String,
    pub connected_line_presentation: String,
    pub connected_line_restriction: String,
    pub called_line_presentation: String,
    pub calling_line_restriction: String,
    pub hide_caller_id: String,
    pub voice_call_waiting: String,
}

pub struct SetCallSettingRequest {
    pub property: String,
    pub value: String,
}

pub struct SendSmsRequest {
    pub phone_number: String,
    pub content: String,
}

pub struct SmsListRequest {
    pub limit: i64,
    pub offset: i64,
}

/// The stock page size for message listings.
pub fn default_page_size() -> (r: i64)
    ensures
        r == 50,
{
    50
}

pub struct SmsConversationRequest {
    pub phone_number: String,
    pub limit: i64,
}

/// One packet-data profile.
pub struct ApnContext {
    pub path: String,
    pub name: String,
    pub active: bool,
    pub apn: String,
    pub protocol: String,
    pub username: String,
    pub password: String,
    pub auth_method: String,
    pub context_type: String,
}

pub struct ApnListResponse {
    pub contexts: Vec<ApnContext>,
}

pub struct SetApnRequest {
    pub path: String,
    pub apn: Option<String>,
    pub protocol: Option<String>,
    pub username: Option<String>,
    pub password: Option<String>,
    pub auth_method: Option<String>,
}

pub struct CallHistoryRequest {
    pub limit: i64,
    pub offset: i64,
}

/// The stock page size for call listings.
pub fn default_limit() -> (r: i64)
    ensures
        r == 50,
{
    50
}

pub struct CallHistoryResponse {
    pub records: Vec<CallRecord>,
    pub stats: CallStats,
}

pub struct DeleteCallRequest {
    pub id: i64,
}

pub struct WebhookTestResponse {
    pub success: bool,
    pub message: String,
}

pub struct OtaMeta {
    pub version: String,
    pub commit: String,
    pub build_time: String,
    pub binary_md5: String,
    pub frontend_md5: String,
    pub arch: String,
    pub min_version: Option<String>,
}

pub struct OtaStatusResponse {
    pub current_version: String,
    pub current_commit: String,
    pub pending_update: bool,
    pub pending_meta: Option<OtaMeta>,
}

pub struct OtaUploadResponse {
    pub meta: OtaMeta,
    pub validation: OtaValidation,
}

pub struct OtaValidation {
    pub valid: bool,
    pub is_newer: bool,
    pub binary_md5_match: bool,
    pub frontend_md5_match: bool,
    pub arch_match: bool,
    pub error: Option<String>,
}

pub struct OtaApplyRequest {
    pub restart_now: bool,
}

} // verus!
