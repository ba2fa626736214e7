//! User configuration: the webhook settings snapshot.
//!
//! The manager holds the current configuration as a plain value.  Reading
//! the backing JSON file, parsing it, and writing it back are the shell's
//! concern; the manager only answers for what a get returns after a set.

use vstd::prelude::*;

verus! {

/// Webhook forwarding settings.  Headers are kept as ordered name/value
/// pairs.
pub struct WebhookConfig {
    pub enabled: bool,
    pub url: String,
    pub forward_sms: bool,
    pub forward_calls: bool,
    pub headers: Vec<(String, String)>,
    pub secret: String,
    pub sms_template: String,
    pub call_template: String,
}

/// The mathematical image of a `WebhookConfig`.
pub ghost struct WebhookConfigV {
    pub enabled: bool,
    pub url: Seq<char>,
    pub forward_sms: bool,
    pub forward_calls: bool,
    pub headers: Seq<(Seq<char>, Seq<char>)>,
    pub secret: Seq<char>,
    pub sms_template: Seq<char>,
    pub call_template: Seq<char>,
}

/// The view of a header list: both names and values as sequences.
pub open spec fn headers_view(h: Seq<(String, String)>) -> Seq<(Seq<char>, Seq<char>)> {
    h.map_values(|p: (String, String)| (p.0@, p.1@))
}

impl View for WebhookConfig {
    type V = WebhookConfigV;

    open spec fn view(&self) -> WebhookConfigV {
        WebhookConfigV {
            enabled: self.enabled,
            url: self.url@,
            forward_sms: self.forward_sms,
            forward_calls: self.forward_calls,
            headers: headers_view(self.headers@),
            secret: self.secret@,
            sms_template: self.sms_template@,
            call_template: self.call_template@,
        }
    }
}

/// The stock SMS notification template, shaped for a chat-bot endpoint.
pub fn default_sms_template() -> (r: String)
    ensures
        r@ == "{\n  \"msg_type\": \"text\",\n  \"content\": {\n    \"text\": \"\u{1f4f1} \u{77ed}\u{4fe1}\u{901a}\u{77e5}\\n\u{53d1}\u{9001}\u{65b9}: {{phone_number}}\\n\u{5185}\u{5bb9}: {{content}}\\n\u{65f6}\u{95f4}: {{timestamp}}\"\n  }\n}"@,
{
    String::from_str(
        "{\n  \"msg_type\": \"text\",\n  \"content\": {\n    \"text\": \"\u{1f4f1} \u{77ed}\u{4fe1}\u{901a}\u{77e5}\\n\u{53d1}\u{9001}\u{65b9}: {{phone_number}}\\n\u{5185}\u{5bb9}: {{content}}\\n\u{65f6}\u{95f4}: {{timestamp}}\"\n  }\n}",
    )
}

/// The stock call notification template, shaped for a chat-bot endpoint.
pub fn default_call_template() -> (r: String)
    ensures
        r@ == "{\n  \"msg_type\": \"text\",\n  \"content\": {\n    \"text\": \"\u{1f4de} \u{6765}\u{7535}\u{901a}\u{77e5}\\n\u{53f7}\u{7801}: {{phone_number}}\\n\u{7c7b}\u{578b}: {{direction}}\\n\u{65f6}\u{95f4}: {{start_time}}\\n\u{65f6}\u{957f}: {{duration}}\u{79d2}\\n\u{5df2}\u{63a5}\u{542c}: {{answered}}\"\n  }\n}"@,
{
    String::from_str(
        "{\n  \"msg_type\": \"text\",\n  \"content\": {\n    \"text\": \"\u{1f4de} \u{6765}\u{7535}\u{901a}\u{77e5}\\n\u{53f7}\u{7801}: {{phone_number}}\\n\u{7c7b}\u{578b}: {{direction}}\\n\u{65f6}\u{95f4}: {{start_time}}\\n\u{65f6}\u{957f}: {{duration}}\u{79d2}\\n\u{5df2}\u{63a5}\u{542c}: {{answered}}\"\n  }\n}",
    )
}

impl WebhookConfig {
    /// The stock configuration: forwarding off, both kinds selected,
    /// empty endpoint and secret, stock templates.
    pub fn stock() -> (r: WebhookConfig)
        ensures
            !r@.enabled,
            r@.url.len() == 0,
            r@.forward_sms,
            r@.forward_calls,
            r@.headers.len() == 0,
            r@.secret.len() == 0,
            r@.sms_template == default_sms_template_view(),
            r@.call_template == default_call_template_view(),
    {
        let r = WebhookConfig {
            enabled: false,
            url: String::new(),
            forward_sms: true,
            forward_calls: true,
            headers: Vec::new(),
            secret: String::new(),
            sms_template: default_sms_template(),
            call_template: default_call_template(),
        };
        proof {
            assert(headers_view(r.headers@) =~= Seq::<(Seq<char>, Seq<char>)>::empty());
        }
        r
    }

    /// A field-by-field copy.
    pub fn duplicate(&self) -> (r: WebhookConfig)
        ensures
            r@ == self@,
    {
        let r = WebhookConfig {
            enabled: self.enabled,
            url: self.url.clone(),
            forward_sms: self.forward_sms,
            forward_calls: self.forward_calls,
            headers: clone_headers(&self.headers),
            secret: self.secret.clone(),
            sms_template: self.sms_template.clone(),
            call_template: self.call_template.clone(),
        };
        proof {
            assert(headers_view(r.headers@) =~= headers_view(self.headers@));
        }
        r
    }
}

/// The stock SMS template as a sequence, for contracts.
pub open spec fn default_sms_template_view() -> Seq<char> {
    "{\n  \"msg_type\": \"text\",\n  \"content\": {\n    \"text\": \"\u{1f4f1} \u{77ed}\u{4fe1}\u{901a}\u{77e5}\\n\u{53d1}\u{9001}\u{65b9}: {{phone_number}}\\n\u{5185}\u{5bb9}: {{content}}\\n\u{65f6}\u{95f4}: {{timestamp}}\"\n  }\n}"@
}

/// The stock call template as a sequence, for contracts.
pub open spec fn default_call_template_view() -> Seq<char> {
    "{\n  \"msg_type\": \"text\",\n  \"content\": {\n    \"text\": \"\u{1f4de} \u{6765}\u{7535}\u{901a}\u{77e5}\\n\u{53f7}\u{7801}: {{phone_number}}\\n\u{7c7b}\u{578b}: {{direction}}\\n\u{65f6}\u{95f4}: {{start_time}}\\n\u{65f6}\u{957f}: {{duration}}\u{79d2}\\n\u{5df2}\u{63a5}\u{542c}: {{answered}}\"\n  }\n}"@
}

/// Copy a header list pair by pair.
fn clone_headers(h: &Vec<(String, String)>) -> (r: Vec<(String, String)>)
    ensures
        r@.len() == h@.len(),
        forall|i: int|
            0 <= i < h@.len() ==> #[trigger] r@[i].0@ == h@[i].0@ && r@[i].1@ == h@[i].1@,
        headers_view(r@) == headers_view(h@),
{
    let mut r: Vec<(String, String)> = Vec::new();
    let mut i: usize = 0;
    while i < h.len()
        invariant
            0 <= i <= h@.len(),
            r@.len() == i,
            forall|j: int|
                0 <= j < i ==> #[trigger] r@[j].0@ == h@[j].0@ && r@[j].1@ == h@[j].1@,
        decreases h@.len() - i,
    {
        let name = h[i].0.clone();
        let value = h[i].1.clone();
        r.push((name, value));
        i = i + 1;
    }
    proof {
        assert(headers_view(r@) =~= headers_view(h@));
    }
    r
}

/// The whole user configuration.
pub struct AppConfig {
    pub webhook: WebhookConfig,
}

impl View for AppConfig {
    type V = WebhookConfigV;

    open spec fn view(&self) -> WebhookConfigV {
        self.webhook@
    }
}

/// In-memory snapshot of the user configuration.
pub struct ConfigManager {
    config: AppConfig,
}

impl ConfigManager {
    /// Start from a loaded (or stock) configuration.
    pub fn new(config: AppConfig) -> (r: ConfigManager)
        ensures
            r@ == config@,
    {
        ConfigManager { config }
    }

    /// A copy of the whole configuration.
    pub fn get(&self) -> (r: AppConfig)
        ensures
            r@ == self@,
    {
        AppConfig { webhook: self.config.webhook.duplicate() }
    }

    /// A copy of the webhook settings.
    pub fn get_webhook(&self) -> (r: WebhookConfig)
        ensures
            r@ == self@,
    {
        self.config.webhook.duplicate()
    }

    /// Replace the webhook settings.
    pub fn set_webhook(&mut self, webhook: WebhookConfig)
        ensures
            final(self)@ == webhook@,
    {
        self.config.webhook = webhook;
    }

    /// Replace the whole configuration.
    pub fn set(&mut self, config: AppConfig)
        ensures
            final(self)@ == config@,
    {
        self.config = config;
    }
}

impl View for ConfigManager {
    type V = WebhookConfigV;

    closed spec fn view(&self) -> WebhookConfigV {
        self.config@
    }
}

} // verus!
