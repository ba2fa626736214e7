//! Webhook fan-out: template rendering, JSON escaping, the payload
//! signature, and the decision whether and what to deliver.
//!
//! Rendering replaces `{{name}}` placeholders with field values taken
//! from the event row; the row itself is only read.  The HTTP POST is
//! the shell's job: it receives a complete delivery plan.

use vstd::prelude::*;
use crate::config::WebhookConfig;
use crate::store::{SmsMessage, SmsMessageV, CallRecord, CallRecordV};
use crate::text::{spec_replace, replace_chars, chars_of, string_of, dec_digits,
    dec_digits_int, push_dec_i64};

verus! {

/// Escaping applied to field values embedded in a JSON template:
/// backslash, quote, newline, carriage return and tab, in that order.
pub open spec fn spec_escape_json(s: Seq<char>) -> Seq<char> {
    let r1 = spec_replace(s, "\\"@, "\\\\"@);
    let r2 = spec_replace(r1, "\""@, "\\\""@);
    let r3 = spec_replace(r2, "\n"@, "\\n"@);
    let r4 = spec_replace(r3, "\r"@, "\\r"@);
    spec_replace(r4, "\t"@, "\\t"@)
}

/// Escape a value for embedding in a JSON string literal.
pub fn escape_json_string(s: &str) -> (r: String)
    ensures
        r@ == spec_escape_json(s@),
{
    let v = chars_of(s);
    let r = escape_json_chars(&v);
    string_of(&r)
}

fn escape_json_chars(v: &Vec<char>) -> (r: Vec<char>)
    ensures
        r@ == spec_escape_json(v@),
{
    proof {
        reveal_strlit("\\");
        reveal_strlit("\"");
        reveal_strlit("\n");
        reveal_strlit("\r");
        reveal_strlit("\t");
    }
    let r1 = replace_chars(v, &chars_of("\\"), &chars_of("\\\\"));
    let r2 = replace_chars(&r1, &chars_of("\""), &chars_of("\\\""));
    let r3 = replace_chars(&r2, &chars_of("\n"), &chars_of("\\n"));
    let r4 = replace_chars(&r3, &chars_of("\r"), &chars_of("\\r"));
    replace_chars(&r4, &chars_of("\t"), &chars_of("\\t"))
}

/// The SMS template rendered for one message: placeholders and their
/// aliases replaced in a fixed order, the content JSON-escaped.
pub open spec fn spec_render_sms(t: Seq<char>, m: SmsMessageV) -> Seq<char> {
    let r1 = spec_replace(t, "{{id}}"@, dec_digits_int(m.id));
    let r2 = spec_replace(r1, "{{phone_number}}"@, m.phone_number);
    let r3 = spec_replace(r2, "{{content}}"@, spec_escape_json(m.content));
    let r4 = spec_replace(r3, "{{direction}}"@, m.direction);
    let r5 = spec_replace(r4, "{{timestamp}}"@, m.timestamp);
    let r6 = spec_replace(r5, "{{status}}"@, m.status);
    let r7 = spec_replace(r6, "{{sender}}"@, m.phone_number);
    let r8 = spec_replace(r7, "{{message}}"@, spec_escape_json(m.content));
    spec_replace(r8, "{{time}}"@, m.timestamp)
}

/// Render the SMS template for a message.  The message is only read.
pub fn render_sms_template(template: &str, message: &SmsMessage) -> (r: String)
    ensures
        r@ == spec_render_sms(template@, message@),
{
    proof {
        reveal_strlit("{{id}}");
        reveal_strlit("{{phone_number}}");
        reveal_strlit("{{content}}");
        reveal_strlit("{{direction}}");
        reveal_strlit("{{timestamp}}");
        reveal_strlit("{{status}}");
        reveal_strlit("{{sender}}");
        reveal_strlit("{{message}}");
        reveal_strlit("{{time}}");
    }
    let t = chars_of(template);
    let mut idv: Vec<char> = Vec::new();
    push_dec_i64(&mut idv, message.id);
    let phone = chars_of(message.phone_number.as_str());
    let esc = escape_json_chars(&chars_of(message.content.as_str()));
    let direction = chars_of(message.direction.as_str());
    let timestamp = chars_of(message.timestamp.as_str());
    let status = chars_of(message.status.as_str());
    let r1 = replace_chars(&t, &chars_of("{{id}}"), &idv);
    let r2 = replace_chars(&r1, &chars_of("{{phone_number}}"), &phone);
    let r3 = replace_chars(&r2, &chars_of("{{content}}"), &esc);
    let r4 = replace_chars(&r3, &chars_of("{{direction}}"), &direction);
    let r5 = replace_chars(&r4, &chars_of("{{timestamp}}"), &timestamp);
    let r6 = replace_chars(&r5, &chars_of("{{status}}"), &status);
    let r7 = replace_chars(&r6, &chars_of("{{sender}}"), &phone);
    let r8 = replace_chars(&r7, &chars_of("{{message}}"), &esc);
    let r9 = replace_chars(&r8, &chars_of("{{time}}"), &timestamp);
    string_of(&r9)
}

/// The call template rendered for one row: placeholders, localized
/// direction and answered markers, and aliases, in a fixed order.
pub open spec fn spec_render_call(t: Seq<char>, c: CallRecordV) -> Seq<char> {
    let end_time = match c.end_time {
        Some(e) => e,
        None => Seq::<char>::empty(),
    };
    let answered_str = if c.answered {
        "\u{662f}"@
    } else {
        "\u{5426}"@
    };
    let direction_cn = if c.direction == "incoming"@ {
        "\u{6765}\u{7535}"@
    } else {
        "\u{53bb}\u{7535}"@
    };
    let answered_bool = if c.answered {
        "true"@
    } else {
        "false"@
    };
    let r1 = spec_replace(t, "{{id}}"@, dec_digits_int(c.id));
    let r2 = spec_replace(r1, "{{phone_number}}"@, c.phone_number);
    let r3 = spec_replace(r2, "{{direction}}"@, c.direction);
    let r4 = spec_replace(r3, "{{direction_cn}}"@, direction_cn);
    let r5 = spec_replace(r4, "{{duration}}"@, dec_digits_int(c.duration));
    let r6 = spec_replace(r5, "{{start_time}}"@, c.start_time);
    let r7 = spec_replace(r6, "{{end_time}}"@, end_time);
    let r8 = spec_replace(r7, "{{answered}}"@, answered_str);
    let r9 = spec_replace(r8, "{{answered_bool}}"@, answered_bool);
    let r10 = spec_replace(r9, "{{caller}}"@, c.phone_number);
    spec_replace(r10, "{{time}}"@, c.start_time)
}

/// Render the call template for a row.  The row is only read.
pub fn render_call_template(template: &str, call: &CallRecord) -> (r: String)
    ensures
        r@ == spec_render_call(template@, call@),
{
    proof {
        reveal_strlit("{{id}}");
        reveal_strlit("{{phone_number}}");
        reveal_strlit("{{direction}}");
        reveal_strlit("{{direction_cn}}");
        reveal_strlit("{{duration}}");
        reveal_strlit("{{start_time}}");
        reveal_strlit("{{end_time}}");
        reveal_strlit("{{answered}}");
        reveal_strlit("{{answered_bool}}");
        reveal_strlit("{{caller}}");
        reveal_strlit("{{time}}");
        reveal_strlit("incoming");
    }
    let t = chars_of(template);
    let mut idv: Vec<char> = Vec::new();
    push_dec_i64(&mut idv, call.id);
    let phone = chars_of(call.phone_number.as_str());
    let direction = chars_of(call.direction.as_str());
    let mut durv: Vec<char> = Vec::new();
    push_dec_i64(&mut durv, call.duration);
    let start_time = chars_of(call.start_time.as_str());
    let end_time: Vec<char> = match &call.end_time {
        Some(e) => chars_of(e.as_str()),
        None => Vec::new(),
    };
    let answered_str = if call.answered {
        chars_of("\u{662f}")
    } else {
        chars_of("\u{5426}")
    };
    let direction_cn = if crate::text::str_eq(call.direction.as_str(), "incoming") {
        chars_of("\u{6765}\u{7535}")
    } else {
        chars_of("\u{53bb}\u{7535}")
    };
    let answered_bool = if call.answered {
        chars_of("true")
    } else {
        chars_of("false")
    };
    let r1 = replace_chars(&t, &chars_of("{{id}}"), &idv);
    let r2 = replace_chars(&r1, &chars_of("{{phone_number}}"), &phone);
    let r3 = replace_chars(&r2, &chars_of("{{direction}}"), &direction);
    let r4 = replace_chars(&r3, &chars_of("{{direction_cn}}"), &direction_cn);
    let r5 = replace_chars(&r4, &chars_of("{{duration}}"), &durv);
    let r6 = replace_chars(&r5, &chars_of("{{start_time}}"), &start_time);
    let r7 = replace_chars(&r6, &chars_of("{{end_time}}"), &end_time);
    let r8 = replace_chars(&r7, &chars_of("{{answered}}"), &answered_str);
    let r9 = replace_chars(&r8, &chars_of("{{answered_bool}}"), &answered_bool);
    let r10 = replace_chars(&r9, &chars_of("{{caller}}"), &phone);
    let r11 = replace_chars(&r10, &chars_of("{{time}}"), &start_time);
    string_of(&r11)
}

/// Law: rendering depends on the template and the message alone — two
/// renderings of the same inputs are the same bytes.
pub proof fn lemma_render_sms_repeatable(t: Seq<char>, m: SmsMessageV, r1: Seq<char>,
    r2: Seq<char>)
    requires
        r1 == spec_render_sms(t, m),
        r2 == spec_render_sms(t, m),
    ensures
        r1 == r2,
{
}

/// Law: rendering a call row is likewise a function of its inputs.
pub proof fn lemma_render_call_repeatable(t: Seq<char>, c: CallRecordV, r1: Seq<char>,
    r2: Seq<char>)
    requires
        r1 == spec_render_call(t, c),
        r2 == spec_render_call(t, c),
    ensures
        r1 == r2,
{
}

/// The 64-bit digest of the default hasher over a string's characters.
pub uninterp spec fn default_hash64(s: Seq<char>) -> u64;

/// Relies on `std::collections::hash_map::DefaultHasher`: instances
/// created by `new` are documented to be identical to each other, so the
/// digest depends on the hashed characters alone.
#[verifier::external_body]
fn default_hash64_of(s: &str) -> (r: u64)
    ensures
        r == default_hash64(s@),
{
    let mut hasher = std::collections::hash_map::DefaultHasher::new();
    std::hash::Hash::hash(s, &mut hasher);
    std::hash::Hasher::finish(&hasher)
}

/// One lowercase hex digit.
pub open spec fn hex_digit(d: int) -> char {
    if d < 10 {
        ((48 + d) as u8) as char
    } else {
        ((87 + d) as u8) as char
    }
}

/// A 64-bit value as exactly sixteen lowercase hex digits.
pub open spec fn hex16(n: u64) -> Seq<char> {
    Seq::new(16, |i: int| hex_digit(((n >> ((4 * (15 - i)) as u64)) & 0xF) as int))
}

fn u64_to_hex16(n: u64) -> (r: Vec<char>)
    ensures
        r@ == hex16(n),
{
    let mut v: Vec<char> = Vec::new();
    let mut k: usize = 0;
    while k < 16
        invariant
            0 <= k <= 16,
            v@.len() == k,
            forall|j: int|
                0 <= j < k ==> v@[j] == hex_digit(((n >> ((4 * (15 - j)) as u64))
                    & 0xF) as int),
        decreases 16 - k,
    {
        let shift: u64 = (4 * (15 - k)) as u64;
        let d: u64 = (n >> shift) & 0xF;
        assert((n >> shift) & 0xF <= 0xF) by (bit_vector);
        let c: char = if d < 10 {
            ((48 + d) as u8) as char
        } else {
            ((87 + d) as u8) as char
        };
        v.push(c);
        k = k + 1;
    }
    proof {
        assert(v@ =~= hex16(n));
    }
    v
}

/// The payload signature: the default-hasher digest of the secret
/// followed by the payload, as sixteen lowercase hex digits.  This is a
/// tamper hint, not a cryptographic MAC.
pub fn compute_hmac(secret: &str, data: &str) -> (r: String)
    ensures
        r@ == hex16(default_hash64(secret@ + data@)),
{
    let mut v = chars_of(secret);
    let d = chars_of(data);
    let mut i: usize = 0;
    while i < d.len()
        invariant
            0 <= i <= d@.len(),
            v@ == secret@ + d@.take(i as int),
            d@ == data@,
        decreases d@.len() - i,
    {
        v.push(d[i]);
        assert(v@ =~= secret@ + d@.take(i + 1));
        i = i + 1;
    }
    proof {
        assert(d@.take(d@.len() as int) =~= d@);
    }
    let joined = string_of(&v);
    let h = default_hash64_of(joined.as_str());
    let hex = u64_to_hex16(h);
    string_of(&hex)
}

/// A planned webhook delivery: where to POST, the exact body, and the
/// signature header value when a secret is set.  The configured extra
/// headers ride along from the configuration itself.
pub struct WebhookDelivery {
    pub url: String,
    pub body: String,
    pub signature: Option<String>,
}

/// Decide an SMS forward.  A delivery is planned exactly when forwarding
/// is enabled for SMS and an endpoint is set; the message row is only
/// read, and the body is the rendered template.
pub fn plan_sms_forward(config: &WebhookConfig, message: &SmsMessage) -> (r: Option<
    WebhookDelivery,
>)
    ensures
        r is Some <==> (config@.enabled && config@.forward_sms && config@.url.len() > 0),
        r is Some ==> r->0.url@ == config@.url,
        r is Some ==> r->0.body@ == spec_render_sms(config@.sms_template, message@),
        r is Some ==> (r->0.signature is Some <==> config@.secret.len() > 0),
        r is Some && config@.secret.len() > 0 ==> r->0.signature->0@ == hex16(
            default_hash64(config@.secret + spec_render_sms(config@.sms_template, message@)),
        ),
{
    if !config.enabled || !config.forward_sms || config.url.as_str().is_empty() {
        return None;
    }
    let body = render_sms_template(config.sms_template.as_str(), message);
    let signature = if config.secret.as_str().is_empty() {
        None
    } else {
        Some(compute_hmac(config.secret.as_str(), body.as_str()))
    };
    Some(WebhookDelivery { url: config.url.clone(), body, signature })
}

/// Decide a call forward, as for SMS but gated on call forwarding.
pub fn plan_call_forward(config: &WebhookConfig, call: &CallRecord) -> (r: Option<
    WebhookDelivery,
>)
    ensures
        r is Some <==> (config@.enabled && config@.forward_calls && config@.url.len() > 0),
        r is Some ==> r->0.url@ == config@.url,
        r is Some ==> r->0.body@ == spec_render_call(config@.call_template, call@),
        r is Some ==> (r->0.signature is Some <==> config@.secret.len() > 0),
        r is Some && config@.secret.len() > 0 ==> r->0.signature->0@ == hex16(
            default_hash64(config@.secret + spec_render_call(config@.call_template, call@)),
        ),
{
    if !config.enabled || !config.forward_calls || config.url.as_str().is_empty() {
        return None;
    }
    let body = render_call_template(config.call_template.as_str(), call);
    let signature = if config.secret.as_str().is_empty() {
        None
    } else {
        Some(compute_hmac(config.secret.as_str(), body.as_str()))
    };
    Some(WebhookDelivery { url: config.url.clone(), body, signature })
}

/// The synthetic message used by the webhook test: a fixed incoming
/// message, stamped with the current time (a clock reading).
pub fn test_sms_message() -> (r: SmsMessage)
    ensures
        r@.id == 0,
        r@.direction == "incoming"@,
        r@.phone_number == "+8613800138000"@,
        r@.content
            == "\u{8fd9}\u{662f}\u{4e00}\u{6761}\u{6d4b}\u{8bd5}\u{77ed}\u{4fe1} (Webhook Test)"@,
        r@.status == "received"@,
        r@.pdu is None,
{
    SmsMessage {
        id: 0,
        direction: String::from_str("incoming"),
        phone_number: String::from_str("+8613800138000"),
        content: String::from_str(
            "\u{8fd9}\u{662f}\u{4e00}\u{6761}\u{6d4b}\u{8bd5}\u{77ed}\u{4fe1} (Webhook Test)",
        ),
        timestamp: now_display(),
        status: String::from_str("received"),
        pdu: None,
    }
}

/// Relies on `chrono::Utc::now` and `DateTime::format` with
/// `%Y-%m-%d %H:%M:%S`: the current UTC time for display.  Nothing is
/// promised of a clock reading.
#[verifier::external_body]
fn now_display() -> (r: String) {
    chrono::Utc::now().format("%Y-%m-%d %H:%M:%S").to_string()
}

/// Decide the webhook test delivery: it renders the SMS template with
/// the synthetic message and is planned whenever an endpoint is set,
/// whether or not forwarding is enabled.
pub fn plan_test_webhook(config: &WebhookConfig) -> (r: Option<WebhookDelivery>)
    ensures
        r is Some <==> config@.url.len() > 0,
        r is Some ==> r->0.url@ == config@.url,
        r is Some ==> (exists|m: SmsMessageV|
            r->0.body@ == spec_render_sms(config@.sms_template, m) && m.id == 0 && m.direction
                == "incoming"@ && m.phone_number == "+8613800138000"@),
        r is Some ==> (r->0.signature is Some <==> config@.secret.len() > 0),
{
    if config.url.as_str().is_empty() {
        return None;
    }
    let message = test_sms_message();
    let body = render_sms_template(config.sms_template.as_str(), &message);
    let signature = if config.secret.as_str().is_empty() {
        None
    } else {
        Some(compute_hmac(config.secret.as_str(), body.as_str()))
    };
    proof {
        let m = message@;
        assert(body@ == spec_render_sms(config@.sms_template, m) && m.id == 0 && m.direction
            == "incoming"@ && m.phone_number == "+8613800138000"@);
    }
    Some(WebhookDelivery { url: config.url.clone(), body, signature })
}

} // verus!
