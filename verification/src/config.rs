use vstd::prelude::*;

verus! {

/// One model entry of the configuration: the name under which callers refer to it,
/// the upstream model identifier and the id of the provider that serves it.
#[derive(Debug, Clone)]
pub struct ModelConfig {
    pub id: String,
    pub model: String,
    pub provider: String,
}

impl ModelConfig {
    /// The name under which callers refer to this model.
    pub fn id(&self) -> (r: &str)
        ensures
            r@ == self.id@,
    {
        self.id.as_str()
    }

    /// The upstream model identifier.
    pub fn model(&self) -> (r: &str)
        ensures
            r@ == self.model@,
    {
        self.model.as_str()
    }
}

/// One provider entry of the configuration.
#[derive(Debug, Clone)]
pub struct ModelProviderConfig {
    pub id: String,
    pub content: ModelProviderContent,
}

/// The provider-specific part of a provider entry.
#[derive(Debug, Clone)]
#[allow(inconsistent_fields)]
pub enum ModelProviderContent {
    OpenAI { base_url: Option<String>, key_env: String },
    Anthropic { base_url: Option<String>, key_env: String },
    GitHub { key_env: Option<String> },
    Bedrock {
        region: String,
        access_key_env: Option<String>,
        secret_access_key_env: Option<String>,
    },
    Ollama { base_url: Option<String> },
}

} // verus!
