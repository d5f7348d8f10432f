//! Providers, their health, and the models that they offer.

use vstd::prelude::*;

verus! {

/// The request form that a provider speaks.
#[derive(Clone, Copy, Debug, PartialEq, Eq, Structural)]
pub enum ApiStyle {
    Chat,
    Responses,
}

/// What a provider is.
#[derive(Clone, Copy, Debug, PartialEq, Eq, Structural)]
pub enum ProviderKind {
    /// Set up by the user.
    Custom,
    /// The built-in ChatGPT Codex provider.
    OpenaiCodex,
    /// A built-in provider that is no longer offered.
    Retired,
}

impl ProviderKind {
    /// Whether the provider works only with a stored sign-in.
    pub fn needs_secret(self) -> (r: bool)
        ensures
            r == (self == ProviderKind::OpenaiCodex),
    {
        match self {
            ProviderKind::OpenaiCodex => true,
            _ => false,
        }
    }

    /// The name by which the interface knows the kind.
    pub open spec fn name_view(self) -> Seq<char> {
        match self {
            ProviderKind::Custom => "custom"@,
            ProviderKind::OpenaiCodex => "openai-codex"@,
            ProviderKind::Retired => "retired"@,
        }
    }

    /// The name by which the interface knows the kind.
    pub fn as_str(self) -> (r: &'static str)
        ensures
            r@ == self.name_view(),
    {
        match self {
            ProviderKind::Custom => "custom",
            ProviderKind::OpenaiCodex => "openai-codex",
            ProviderKind::Retired => "retired",
        }
    }
}

/// A provider as the user has it stored.
#[derive(Debug)]
pub struct Provider {
    pub id: String,
    pub name: String,
    pub base: String,
    /// The stored credential: an API key, or the text of a sign-in.
    pub token: String,
    pub api_style: ApiStyle,
    pub allow_insecure_tls: bool,
    pub kind: ProviderKind,
}

impl Provider {
    /// A provider set up by the user, without an id.
    pub fn new(name: &str, base: &str, token: &str, api_style: ApiStyle) -> (r: Provider)
        ensures
            r.id@.len() == 0,
            r.name@ == name@,
            r.base@ == base@,
            r.token@ == token@,
            r.api_style == api_style,
            !r.allow_insecure_tls,
            r.kind == ProviderKind::Custom,
    {
        Provider {
            id: String::new(),
            name: name.to_owned(),
            base: base.to_owned(),
            token: token.to_owned(),
            api_style,
            allow_insecure_tls: false,
            kind: ProviderKind::Custom,
        }
    }
}

/// How a provider fares.
#[derive(Clone, Copy, Debug, PartialEq, Eq, Structural)]
pub enum ProviderHealthKind {
    /// It answers and offers models.
    Ready,
    /// It answers and offers none.
    Empty,
    /// It cannot be reached now.
    Waiting,
    /// It wants a new sign-in.
    Auth,
    /// It cannot be used.
    Error,
}

/// How a provider fares, and what to tell the user.
#[derive(Debug)]
pub struct ProviderHealth {
    pub ok: bool,
    pub kind: ProviderHealthKind,
    pub model: Option<String>,
    pub status: Option<String>,
    pub error: Option<String>,
}

/// What a `ProviderHealth` holds.
#[verifier::ext_equal]
pub struct HealthView {
    pub ok: bool,
    pub kind: ProviderHealthKind,
    pub model: Option<Seq<char>>,
    pub status: Option<Seq<char>>,
    pub error: Option<Seq<char>>,
}

impl View for ProviderHealth {
    type V = HealthView;

    open spec fn view(&self) -> HealthView {
        HealthView {
            ok: self.ok,
            kind: self.kind,
            model: self.model.deep_view(),
            status: self.status.deep_view(),
            error: self.error.deep_view(),
        }
    }
}

/// A model that the user can choose.
#[derive(Debug)]
pub struct RemoteModelOption {
    pub id: String,
    pub model: String,
    pub base: String,
    pub port: u16,
    pub ready: bool,
    pub label: String,
    pub thinking_supported: bool,
    pub thinking_control: Option<String>,
    pub thinking_efforts: Vec<String>,
    pub thinking_can_disable: bool,
    pub reasoning_summary: Option<String>,
    pub reasoning_context: Option<String>,
    pub attachments_supported: bool,
    pub context_length: Option<u64>,
    pub prompt_progress_supported: bool,
    pub provider_id: String,
    pub provider_name: String,
    pub request_style: ApiStyle,
    pub connect_kind: Option<String>,
}

/// What a `RemoteModelOption` holds.
#[verifier::ext_equal]
pub struct ModelView {
    pub id: Seq<char>,
    pub model: Seq<char>,
    pub base: Seq<char>,
    pub port: u16,
    pub ready: bool,
    pub label: Seq<char>,
    pub thinking_supported: bool,
    pub thinking_control: Option<Seq<char>>,
    pub thinking_efforts: Seq<Seq<char>>,
    pub thinking_can_disable: bool,
    pub reasoning_summary: Option<Seq<char>>,
    pub reasoning_context: Option<Seq<char>>,
    pub attachments_supported: bool,
    pub context_length: Option<u64>,
    pub prompt_progress_supported: bool,
    pub provider_id: Seq<char>,
    pub provider_name: Seq<char>,
    pub request_style: ApiStyle,
    pub connect_kind: Option<Seq<char>>,
}

impl View for RemoteModelOption {
    type V = ModelView;

    open spec fn view(&self) -> ModelView {
        ModelView {
            id: self.id@,
            model: self.model@,
            base: self.base@,
            port: self.port,
            ready: self.ready,
            label: self.label@,
            thinking_supported: self.thinking_supported,
            thinking_control: self.thinking_control.deep_view(),
            thinking_efforts: self.thinking_efforts.deep_view(),
            thinking_can_disable: self.thinking_can_disable,
            reasoning_summary: self.reasoning_summary.deep_view(),
            reasoning_context: self.reasoning_context.deep_view(),
            attachments_supported: self.attachments_supported,
            context_length: self.context_length,
            prompt_progress_supported: self.prompt_progress_supported,
            provider_id: self.provider_id@,
            provider_name: self.provider_name@,
            request_style: self.request_style,
            connect_kind: self.connect_kind.deep_view(),
        }
    }
}

/// What models hold.
pub open spec fn model_views(models: Seq<RemoteModelOption>) -> Seq<ModelView> {
    models.map_values(|model: RemoteModelOption| model@)
}

/// The health of a provider that is ready with `model`.
pub open spec fn ready_health(model: Seq<char>) -> HealthView {
    HealthView {
        ok: true,
        kind: ProviderHealthKind::Ready,
        model: Some(model),
        status: Some("ready"@),
        error: None,
    }
}

/// The health of a provider that is not ready.
pub open spec fn failed_health(kind: ProviderHealthKind, message: Seq<char>) -> HealthView {
    HealthView { ok: false, kind, model: None, status: None, error: Some(message) }
}

/// The health of a provider that is ready with `model`.
pub fn health_ok(model: &str) -> (r: ProviderHealth)
    ensures
        r@ == ready_health(model@),
{
    ProviderHealth {
        ok: true,
        kind: ProviderHealthKind::Ready,
        model: Some(model.to_owned()),
        status: Some("ready".to_owned()),
        error: None,
    }
}

/// The health of a provider that is not ready.
pub fn health_error(kind: ProviderHealthKind, message: &str) -> (r: ProviderHealth)
    ensures
        r@ == failed_health(kind, message@),
{
    ProviderHealth { ok: false, kind, model: None, status: None, error: Some(message.to_owned()) }
}

} // verus!
