use std::collections::hash_map::DefaultHasher;
use std::hash::{Hash, Hasher};

use udx710_core::webhook::{escape_json_string, render_sms_template, render_call_template,
    compute_hmac, plan_sms_forward, plan_call_forward, plan_test_webhook};
use udx710_core::config::{WebhookConfig, AppConfig, ConfigManager, default_sms_template,
    default_call_template};
use udx710_core::store::{SmsMessage, CallRecord};

fn sms(phone: &str, content: &str) -> SmsMessage {
    SmsMessage {
        id: 7,
        direction: "incoming".to_string(),
        phone_number: phone.to_string(),
        content: content.to_string(),
        timestamp: "2024-01-01T00:00:00Z".to_string(),
        status: "received".to_string(),
        pdu: None,
    }
}

fn call(answered: bool, direction: &str) -> CallRecord {
    CallRecord {
        id: 3,
        direction: direction.to_string(),
        phone_number: "+12025550123".to_string(),
        duration: if answered { 42 } else { 0 },
        start_time: "2024-01-01T00:00:00Z".to_string(),
        end_time: Some("2024-01-01T00:01:00Z".to_string()),
        answered,
    }
}

#[test]
fn escape_handles_json_specials() {
    assert_eq!(escape_json_string("hi\n\"you\""), "hi\\n\\\"you\\\"");
    assert_eq!(escape_json_string("a\\b\tc\rd"), "a\\\\b\\tc\\rd");
    assert_eq!(escape_json_string("plain"), "plain");
}

#[test]
fn sms_template_renders_fields() {
    let body = render_sms_template(
        "{\"text\":\"from {{sender}}: {{message}}\"}",
        &sms("+1", "hi\n\"you\""),
    );
    assert_eq!(body, "{\"text\":\"from +1: hi\\n\\\"you\\\"\"}");
}

#[test]
fn sms_template_primary_names() {
    let body = render_sms_template(
        "{{id}}|{{phone_number}}|{{content}}|{{direction}}|{{timestamp}}|{{status}}",
        &sms("+49", "ok"),
    );
    assert_eq!(body, "7|+49|ok|incoming|2024-01-01T00:00:00Z|received");
}

#[test]
fn sms_template_rendering_is_repeatable() {
    let msg = sms("+1", "payload \\ with \"specials\"\t");
    let t = default_sms_template();
    let once = render_sms_template(&t, &msg);
    let twice = render_sms_template(&t, &msg);
    assert_eq!(once, twice);
}

#[test]
fn call_template_renders_fields() {
    let body = render_call_template(
        "{{id}}|{{caller}}|{{direction}}|{{direction_cn}}|{{duration}}|{{answered}}|{{answered_bool}}",
        &call(true, "incoming"),
    );
    assert_eq!(body, "3|+12025550123|incoming|\u{6765}\u{7535}|42|\u{662f}|true");
}

#[test]
fn call_template_outgoing_unanswered() {
    let body = render_call_template(
        "{{direction_cn}}/{{answered}}/{{answered_bool}}/{{end_time}}",
        &call(false, "outgoing"),
    );
    assert_eq!(body, "\u{53bb}\u{7535}/\u{5426}/false/2024-01-01T00:01:00Z");
}

#[test]
fn signature_matches_default_hasher() {
    let secret = "hook-secret";
    let body = "{\"k\":1}";
    let mut hasher = DefaultHasher::new();
    format!("{}{}", secret, body).hash(&mut hasher);
    let expected = format!("{:016x}", hasher.finish());
    assert_eq!(compute_hmac(secret, body), expected);
}

#[test]
fn signature_is_sixteen_hex_digits() {
    let sig = compute_hmac("s", "d");
    assert_eq!(sig.len(), 16);
    assert!(sig.chars().all(|c| c.is_ascii_hexdigit() && !c.is_ascii_uppercase()));
    assert_eq!(sig, compute_hmac("s", "d"));
}

fn enabled_config() -> WebhookConfig {
    let mut c = WebhookConfig::stock();
    c.enabled = true;
    c.url = "http://127.0.0.1/hook".to_string();
    c.sms_template = "{{sender}}:{{message}}".to_string();
    c.call_template = "{{caller}}:{{duration}}".to_string();
    c
}

#[test]
fn sms_forward_planned_only_when_enabled() {
    let msg = sms("+1", "x");
    assert!(plan_sms_forward(&WebhookConfig::stock(), &msg).is_none());
    let mut c = enabled_config();
    let d = plan_sms_forward(&c, &msg).unwrap();
    assert_eq!(d.url, "http://127.0.0.1/hook");
    assert_eq!(d.body, "+1:x");
    assert!(d.signature.is_none());
    c.forward_sms = false;
    assert!(plan_sms_forward(&c, &msg).is_none());
    c.forward_sms = true;
    c.url = String::new();
    assert!(plan_sms_forward(&c, &msg).is_none());
}

#[test]
fn forwarding_reads_but_never_changes_the_row() {
    let msg = sms("+1", "x");
    let c = enabled_config();
    let _ = plan_sms_forward(&c, &msg);
    let _ = plan_sms_forward(&c, &msg);
    assert_eq!(msg.phone_number, "+1");
    assert_eq!(msg.content, "x");
    assert_eq!(msg.id, 7);
    assert_eq!(msg.status, "received");
}

#[test]
fn call_forward_planned_and_signed() {
    let mut c = enabled_config();
    c.secret = "k".to_string();
    let r = call(true, "incoming");
    let d = plan_call_forward(&c, &r).unwrap();
    assert_eq!(d.body, "+12025550123:42");
    assert_eq!(d.signature.as_deref().unwrap(), &compute_hmac("k", "+12025550123:42"));
    c.forward_calls = false;
    assert!(plan_call_forward(&c, &r).is_none());
}

#[test]
fn test_webhook_ignores_enabled_but_needs_url() {
    let mut c = WebhookConfig::stock();
    assert!(plan_test_webhook(&c).is_none());
    c.url = "http://127.0.0.1/hook".to_string();
    c.sms_template = "{{sender}}".to_string();
    let d = plan_test_webhook(&c).unwrap();
    assert_eq!(d.body, "+8613800138000");
}

#[test]
fn stock_config_defaults() {
    let c = WebhookConfig::stock();
    assert!(!c.enabled);
    assert!(c.forward_sms);
    assert!(c.forward_calls);
    assert_eq!(c.url, "");
    assert_eq!(c.secret, "");
    assert!(c.sms_template.contains("{{phone_number}}"));
    assert!(c.call_template.contains("{{duration}}"));
    assert_eq!(c.sms_template, default_sms_template());
    assert_eq!(c.call_template, default_call_template());
}

#[test]
fn config_manager_round_trip() {
    let mut m = ConfigManager::new(AppConfig { webhook: WebhookConfig::stock() });
    assert!(!m.get_webhook().enabled);
    let mut updated = WebhookConfig::stock();
    updated.enabled = true;
    updated.url = "http://example.invalid".to_string();
    updated.headers = vec![("X-Token".to_string(), "t".to_string())];
    m.set_webhook(updated);
    let back = m.get_webhook();
    assert!(back.enabled);
    assert_eq!(back.url, "http://example.invalid");
    assert_eq!(back.headers.len(), 1);
    assert_eq!(back.headers[0].0, "X-Token");
    let whole = m.get();
    assert!(whole.webhook.enabled);
    m.set(AppConfig { webhook: WebhookConfig::stock() });
    assert!(!m.get_webhook().enabled);
}
