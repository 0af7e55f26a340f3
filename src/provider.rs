//! The provider registry: domains, URL paths and credential key names.
use vstd::prelude::*;
use crate::text::concat;

verus! {

/// Which API dialect a request speaks.
#[derive(Clone, Copy, Debug, PartialEq, Eq, Structural)]
pub enum Api {
    /// The OpenAI API. Most providers (partially) support this.
    OpenAI,
    /// The DeepInfra API. This is their non-OpenAI-compatible API.
    DeepInfra,
}

/// A vendor of generative-AI APIs.
#[derive(Clone, Debug)]
pub enum Provider {
    Amazon,
    Azure,
    Cerebras,
    DeepInfra,
    ElevenLabs,
    Fireworks,
    FriendliAI,
    Google,
    Groq,
    Hyperbolic,
    Nebius,
    Novita,
    OpenAI,
    /// Another OpenAI-compatible provider, given by its base URL.
    ///
    /// For example, "https://api.deepinfra.com/v1/openai".
    Other(String),
}


impl PartialEq for Provider {
    fn eq(&self, other: &Provider) -> (r: bool) {
        match (self, other) {
            (Provider::Other(a), Provider::Other(b)) => a.eq(b),
            (Provider::Other(_), _) => false,
            (_, Provider::Other(_)) => false,
            _ => {
                let r = self.tag() == other.tag();
                proof {
                    if r {
                        assert(*self == *other) by {
                            match *self {
                                Provider::Other(_) => {},
                                _ => {},
                            }
                        }
                    }
                }
                r
            },
        }
    }
}

impl vstd::std_specs::cmp::PartialEqSpecImpl for Provider {
    open spec fn obeys_eq_spec() -> bool {
        true
    }

    open spec fn eq_spec(&self, other: &Provider) -> bool {
        same_provider(*self, *other)
    }
}

/// Two providers are the same vendor, and for `Other` the same base URL.
pub open spec fn same_provider(a: Provider, b: Provider) -> bool {
    match (a, b) {
        (Provider::Other(x), Provider::Other(y)) => x@ == y@,
        (Provider::Other(_), _) => false,
        (_, Provider::Other(_)) => false,
        _ => a == b,
    }
}

/// The base URL of each vendor.
pub open spec fn domain_of(p: Provider) -> Seq<char> {
    match p {
        Provider::Amazon => "https://api.amazon.com"@,
        Provider::Azure => "https://api.azure.com"@,
        Provider::Cerebras => "https://api.cerebras.ai"@,
        Provider::DeepInfra => "https://api.deepinfra.com"@,
        Provider::ElevenLabs => "https://api.elevenlabs.io"@,
        Provider::Fireworks => "https://api.fireworks.ai"@,
        Provider::FriendliAI => "https://api.friendli.ai"@,
        Provider::Google => "https://generativelanguage.googleapis.com"@,
        Provider::Groq => "https://api.groq.com"@,
        Provider::Hyperbolic => "https://api.hyperbolic.xyz"@,
        Provider::Nebius => "https://api.nebi.us"@,
        Provider::Novita => "https://api.novita.ai"@,
        Provider::OpenAI => "https://api.openai.com"@,
        Provider::Other(domain) => domain@,
    }
}

/// The name under which each vendor's secret is looked up. All `Other`
/// providers share one name, distinct from every named vendor's.
pub open spec fn key_name_of(p: Provider) -> Seq<char> {
    match p {
        Provider::Amazon => "AMAZON_KEY"@,
        Provider::Azure => "AZURE_KEY"@,
        Provider::Cerebras => "CEREBRAS_KEY"@,
        Provider::DeepInfra => "DEEPINFRA_KEY"@,
        Provider::ElevenLabs => "ELEVENLABS_KEY"@,
        Provider::Fireworks => "FIREWORKS_KEY"@,
        Provider::FriendliAI => "FRIENDLIAI_KEY"@,
        Provider::Google => "GOOGLE_KEY"@,
        Provider::Groq => "GROQ_KEY"@,
        Provider::Hyperbolic => "HYPERBOLIC_KEY"@,
        Provider::Nebius => "NEBIUS_KEY"@,
        Provider::Novita => "NOVITA_KEY"@,
        Provider::OpenAI => "OPENAI_KEY"@,
        Provider::Other(_) => "OTHER_KEY"@,
    }
}

/// The base of the OpenAI-compatible endpoints of each vendor. An `Other`
/// provider's URL is its base as it stands.
pub open spec fn openai_base_of(p: Provider) -> Seq<char> {
    match p {
        Provider::Groq => domain_of(p) + "/openai/v1"@,
        Provider::OpenAI => domain_of(p) + "/v1"@,
        Provider::Hyperbolic => domain_of(p) + "/v1"@,
        Provider::Google => domain_of(p) + "/v1beta/openai"@,
        Provider::Other(domain) => domain@,
        _ => domain_of(p) + "/v1/openai"@,
    }
}

impl Provider {
    /// The variant alone, as a number; `Other` is 13.
    spec fn spec_tag(&self) -> u8 {
        match self {
            Provider::Amazon => 0,
            Provider::Azure => 1,
            Provider::Cerebras => 2,
            Provider::DeepInfra => 3,
            Provider::ElevenLabs => 4,
            Provider::Fireworks => 5,
            Provider::FriendliAI => 6,
            Provider::Google => 7,
            Provider::Groq => 8,
            Provider::Hyperbolic => 9,
            Provider::Nebius => 10,
            Provider::Novita => 11,
            Provider::OpenAI => 12,
            Provider::Other(_) => 13,
        }
    }

    #[verifier::when_used_as_spec(spec_tag)]
    fn tag(&self) -> (r: u8)
        ensures
            r == self.spec_tag(),
    {
        match self {
            Provider::Amazon => 0,
            Provider::Azure => 1,
            Provider::Cerebras => 2,
            Provider::DeepInfra => 3,
            Provider::ElevenLabs => 4,
            Provider::Fireworks => 5,
            Provider::FriendliAI => 6,
            Provider::Google => 7,
            Provider::Groq => 8,
            Provider::Hyperbolic => 9,
            Provider::Nebius => 10,
            Provider::Novita => 11,
            Provider::OpenAI => 12,
            Provider::Other(_) => 13,
        }
    }

    /// A copy of this provider.
    pub fn duplicate(&self) -> (r: Provider)
        ensures
            r == *self,
    {
        match self {
            Provider::Amazon => Provider::Amazon,
            Provider::Azure => Provider::Azure,
            Provider::Cerebras => Provider::Cerebras,
            Provider::DeepInfra => Provider::DeepInfra,
            Provider::ElevenLabs => Provider::ElevenLabs,
            Provider::Fireworks => Provider::Fireworks,
            Provider::FriendliAI => Provider::FriendliAI,
            Provider::Google => Provider::Google,
            Provider::Groq => Provider::Groq,
            Provider::Hyperbolic => Provider::Hyperbolic,
            Provider::Nebius => Provider::Nebius,
            Provider::Novita => Provider::Novita,
            Provider::OpenAI => Provider::OpenAI,
            Provider::Other(domain) => Provider::Other(domain.clone()),
        }
    }

    /// The base URL of the vendor.
    pub fn domain(&self) -> (r: String)
        ensures
            r@ == domain_of(*self),
    {
        match self {
            Provider::Amazon => "https://api.amazon.com".to_string(),
            Provider::Azure => "https://api.azure.com".to_string(),
            Provider::Cerebras => "https://api.cerebras.ai".to_string(),
            Provider::DeepInfra => "https://api.deepinfra.com".to_string(),
            Provider::ElevenLabs => "https://api.elevenlabs.io".to_string(),
            Provider::Fireworks => "https://api.fireworks.ai".to_string(),
            Provider::FriendliAI => "https://api.friendli.ai".to_string(),
            Provider::Google => "https://generativelanguage.googleapis.com".to_string(),
            Provider::Groq => "https://api.groq.com".to_string(),
            Provider::Hyperbolic => "https://api.hyperbolic.xyz".to_string(),
            Provider::Nebius => "https://api.nebi.us".to_string(),
            Provider::Novita => "https://api.novita.ai".to_string(),
            Provider::OpenAI => "https://api.openai.com".to_string(),
            Provider::Other(domain) => domain.clone(),
        }
    }

    /// The name under which the vendor's secret is looked up.
    pub fn key_name(&self) -> (r: String)
        ensures
            r@ == key_name_of(*self),
    {
        match self {
            Provider::Amazon => "AMAZON_KEY".to_string(),
            Provider::Azure => "AZURE_KEY".to_string(),
            Provider::Cerebras => "CEREBRAS_KEY".to_string(),
            Provider::DeepInfra => "DEEPINFRA_KEY".to_string(),
            Provider::ElevenLabs => "ELEVENLABS_KEY".to_string(),
            Provider::Fireworks => "FIREWORKS_KEY".to_string(),
            Provider::FriendliAI => "FRIENDLIAI_KEY".to_string(),
            Provider::Google => "GOOGLE_KEY".to_string(),
            Provider::Groq => "GROQ_KEY".to_string(),
            Provider::Hyperbolic => "HYPERBOLIC_KEY".to_string(),
            Provider::Nebius => "NEBIUS_KEY".to_string(),
            Provider::Novita => "NOVITA_KEY".to_string(),
            Provider::OpenAI => "OPENAI_KEY".to_string(),
            Provider::Other(_) => "OTHER_KEY".to_string(),
        }
    }

    /// Whether requests to this vendor need the alternate TLS backend;
    /// without it Google answers every request with a bad-request error.
    pub fn needs_rustls(&self) -> (r: bool)
        ensures
            r == (*self is Google),
    {
        match self {
            Provider::Google => true,
            _ => false,
        }
    }
}

/// The base of the vendor's OpenAI-compatible endpoints.
pub fn openai_base_url(provider: &Provider) -> (r: String)
    ensures
        r@ == openai_base_of(*provider),
{
    match provider {
        Provider::Groq => concat(provider.domain().as_str(), "/openai/v1"),
        Provider::OpenAI => concat(provider.domain().as_str(), "/v1"),
        Provider::Hyperbolic => concat(provider.domain().as_str(), "/v1"),
        Provider::Google => concat(provider.domain().as_str(), "/v1beta/openai"),
        Provider::Other(domain) => domain.clone(),
        _ => concat(provider.domain().as_str(), "/v1/openai"),
    }
}

/// The chat-completion endpoint.
pub fn chat_address(provider: &Provider) -> (r: String)
    ensures
        r@ == openai_base_of(*provider) + "/chat/completions"@,
{
    concat(openai_base_url(provider).as_str(), "/chat/completions")
}

/// The endpoint that lists the available models.
pub fn models_address(provider: &Provider) -> (r: String)
    ensures
        r@ == openai_base_of(*provider) + "/models"@,
{
    concat(openai_base_url(provider).as_str(), "/models")
}

} // verus!
