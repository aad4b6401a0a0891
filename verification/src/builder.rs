//! Turns the model and provider configuration into service targets for `genai`.
use vstd::prelude::*;
use vstd::hash_map::StringHashMap;

use genai::adapter::AdapterKind;
use genai::resolver::{AuthData, Endpoint};
use genai::ModelIden;

use crate::config::{ModelConfig, ModelProviderConfig, ModelProviderContent};
use crate::json::str_eq;

verus! {

/// Why a service target could not be built.
#[derive(Debug)]
pub enum ModelBuilderError {
    /// A model names a provider that the configuration does not hold.
    ProviderNotFound(String),
    /// An environment variable that a provider needs is not set (or not Unicode).
    InvalidAccessKeyEnv(String),
}

/// A `ModelBuilderError` as the contracts speak of it.
pub enum ModelBuilderErrorView {
    ProviderNotFound(Seq<char>),
    InvalidAccessKeyEnv(Seq<char>),
}

impl View for ModelBuilderError {
    type V = ModelBuilderErrorView;

    open spec fn view(&self) -> ModelBuilderErrorView {
        match self {
            ModelBuilderError::ProviderNotFound(s) => ModelBuilderErrorView::ProviderNotFound(s@),
            ModelBuilderError::InvalidAccessKeyEnv(s) => ModelBuilderErrorView::InvalidAccessKeyEnv(
                s@,
            ),
        }
    }
}

/// The text that describes an error.
pub open spec fn error_message(e: ModelBuilderErrorView) -> Seq<char> {
    match e {
        ModelBuilderErrorView::ProviderNotFound(s) => "Provider not found: "@ + s,
        ModelBuilderErrorView::InvalidAccessKeyEnv(s) => "Invalid access key environment variable: "@
            + s,
    }
}

impl ModelBuilderError {
    /// The text that describes the error (its `Display` form).
    pub fn message(&self) -> (r: String)
        ensures
            r@ == error_message(self@),
    {
        match self {
            ModelBuilderError::ProviderNotFound(s) => {
                let mut m = String::from_str("Provider not found: ");
                m.append(s.as_str());
                m
            },
            ModelBuilderError::InvalidAccessKeyEnv(s) => {
                let mut m = String::from_str("Invalid access key environment variable: ");
                m.append(s.as_str());
                m
            },
        }
    }
}

/// The `genai` adapters that the configuration can select.
#[derive(Debug, Clone, Copy, PartialEq, Eq, Structural)]
pub enum Adapter {
    OpenAI,
    Anthropic,
    GithubCopilot,
    Ollama,
    BedrockSigv4,
}

/// Where a service target's endpoint comes from: a URL from the configuration, or a
/// built-in default.
#[derive(Debug)]
pub enum EndpointPlan {
    Configured(String),
    Fixed(&'static str),
}

/// How a service target authenticates.
#[derive(Debug)]
pub enum AuthPlan {
    /// The key is read from the named environment variable when the request is made.
    FromEnv(String),
    /// The key itself.
    Key(String),
    /// Several named credentials, in the order given.
    MultiKeys(Vec<(String, String)>),
}

/// Everything a service target is made of, as plain values.
#[derive(Debug)]
pub struct TargetPlan {
    pub endpoint: Option<EndpointPlan>,
    pub adapter: Adapter,
    pub auth: AuthPlan,
    pub model: String,
}

/// An `EndpointPlan` as the contracts speak of it.
pub enum EndpointView {
    Configured(Seq<char>),
    Fixed(Seq<char>),
}

/// An `AuthPlan` as the contracts speak of it.
pub enum AuthView {
    FromEnv(Seq<char>),
    Key(Seq<char>),
    MultiKeys(Seq<(Seq<char>, Seq<char>)>),
}

/// A `TargetPlan` as the contracts speak of it.
pub struct TargetPlanView {
    pub endpoint: Option<EndpointView>,
    pub adapter: Adapter,
    pub auth: AuthView,
    pub model: Seq<char>,
}

/// The views of the pairs in `keys`.
pub open spec fn pairs_view(keys: Seq<(String, String)>) -> Seq<(Seq<char>, Seq<char>)> {
    keys.map_values(|p: (String, String)| (p.0@, p.1@))
}

impl View for TargetPlan {
    type V = TargetPlanView;

    open spec fn view(&self) -> TargetPlanView {
        TargetPlanView {
            endpoint: match self.endpoint {
                Some(EndpointPlan::Configured(u)) => Some(EndpointView::Configured(u@)),
                Some(EndpointPlan::Fixed(u)) => Some(EndpointView::Fixed(u@)),
                None => None,
            },
            adapter: self.adapter,
            auth: match self.auth {
                AuthPlan::FromEnv(s) => AuthView::FromEnv(s@),
                AuthPlan::Key(s) => AuthView::Key(s@),
                AuthPlan::MultiKeys(keys) => AuthView::MultiKeys(pairs_view(keys@)),
            },
            model: self.model@,
        }
    }
}

/// Base URL of the GitHub Models inference API.
pub open spec fn github_url() -> Seq<char> {
    "https://models.github.ai/inference/"@
}

/// Base URL of a local Ollama server.
pub open spec fn ollama_url() -> Seq<char> {
    "http://localhost:11434/"@
}

/// The value of the first entry named `name` in an environment snapshot.
pub open spec fn env_value(env: Seq<(String, String)>, name: Seq<char>) -> Option<Seq<char>>
    decreases env.len(),
{
    if env.len() == 0 {
        None
    } else if env[0].0@ == name {
        Some(env[0].1@)
    } else {
        env_value(env.drop_first(), name)
    }
}

/// `o`'s string, or `default` where `o` holds none.
pub open spec fn or_default(o: Option<String>, default: Seq<char>) -> Seq<char> {
    match o {
        Some(s) => s@,
        None => default,
    }
}

/// The target plan of `model`, given the providers by id and the process environment
/// (a snapshot of its Unicode entries, as `std::env::var` sees them).
pub open spec fn plan_of(
    model: ModelConfig,
    providers: Map<Seq<char>, ModelProviderConfig>,
    env: Seq<(String, String)>,
) -> Result<TargetPlanView, ModelBuilderErrorView> {
    if !providers.contains_key(model.provider@) {
        Err(ModelBuilderErrorView::ProviderNotFound(model.provider@))
    } else {
        match providers[model.provider@].content {
            ModelProviderContent::OpenAI { base_url, key_env } => Ok(
                TargetPlanView {
                    endpoint: match base_url {
                        Some(u) => Some(EndpointView::Configured(u@)),
                        None => None,
                    },
                    adapter: Adapter::OpenAI,
                    auth: AuthView::FromEnv(key_env@),
                    model: model.model@,
                },
            ),
            ModelProviderContent::Anthropic { base_url, key_env } => Ok(
                TargetPlanView {
                    endpoint: match base_url {
                        Some(u) => Some(EndpointView::Configured(u@)),
                        None => None,
                    },
                    adapter: Adapter::Anthropic,
                    auth: AuthView::FromEnv(key_env@),
                    model: model.model@,
                },
            ),
            ModelProviderContent::GitHub { key_env } => Ok(
                TargetPlanView {
                    endpoint: Some(EndpointView::Fixed(github_url())),
                    adapter: Adapter::GithubCopilot,
                    auth: AuthView::FromEnv(or_default(key_env, "GITHUB_TOKEN"@)),
                    model: model.model@,
                },
            ),
            ModelProviderContent::Ollama { base_url } => Ok(
                TargetPlanView {
                    endpoint: Some(
                        match base_url {
                            Some(u) => EndpointView::Configured(u@),
                            None => EndpointView::Fixed(ollama_url()),
                        },
                    ),
                    adapter: Adapter::Ollama,
                    auth: AuthView::Key("ollama"@),
                    model: model.model@,
                },
            ),
            ModelProviderContent::Bedrock { region, access_key_env, secret_access_key_env } => {
                let access_name = or_default(access_key_env, "AWS_ACCESS_KEY_ID"@);
                let secret_name = or_default(secret_access_key_env, "AWS_SECRET_ACCESS_KEY"@);
                match env_value(env, access_name) {
                    None => Err(ModelBuilderErrorView::InvalidAccessKeyEnv(access_name)),
                    Some(access) => match env_value(env, secret_name) {
                        None => Err(ModelBuilderErrorView::InvalidAccessKeyEnv(secret_name)),
                        Some(secret) => Ok(
                            TargetPlanView {
                                endpoint: None,
                                adapter: Adapter::BedrockSigv4,
                                auth: AuthView::MultiKeys(
                                    seq![
                                        ("aws_access_key_id"@, access),
                                        ("aws_secret_access_key"@, secret),
                                        ("aws_region"@, region@),
                                    ],
                                ),
                                model: model.model@,
                            },
                        ),
                    },
                }
            },
        }
    }
}

/// Looks a name up in an environment snapshot.
pub fn lookup_env(env: &Vec<(String, String)>, name: &str) -> (r: Option<String>)
    ensures
        match r {
            Some(v) => env_value(env@, name@) == Some(v@),
            None => env_value(env@, name@) is None,
        },
{
    let n = env.len();
    let mut i: usize = 0;
    assert(env@.skip(0) == env@);
    while i < n
        invariant
            i <= n,
            n == env@.len(),
            env_value(env@, name@) == env_value(env@.skip(i as int), name@),
        decreases n - i,
    {
        assert(env@.skip(i as int).drop_first() == env@.skip(i + 1));
        if str_eq(env[i].0.as_str(), name) {
            return Some(env[i].1.clone());
        }
        i = i + 1;
    }
    None
}

fn copy_opt(o: &Option<String>) -> (r: Option<String>)
    ensures
        r == *o,
{
    match o {
        Some(s) => Some(s.clone()),
        None => None,
    }
}

/// The target plan of `model` (see `plan_of`).
pub fn plan_for_model(
    model: &ModelConfig,
    provider: &StringHashMap<ModelProviderConfig>,
    env: &Vec<(String, String)>,
) -> (r: Result<TargetPlan, ModelBuilderError>)
    ensures
        match r {
            Ok(p) => plan_of(*model, provider@, env@) == Ok::<_, ModelBuilderErrorView>(p@),
            Err(e) => plan_of(*model, provider@, env@) == Err::<TargetPlanView, _>(e@),
        },
{
    let config = match provider.get(model.provider.as_str()) {
        Some(c) => c,
        None => {
            return Err(ModelBuilderError::ProviderNotFound(model.provider.clone()));
        },
    };
    let model_name = model.model.clone();
    match &config.content {
        ModelProviderContent::OpenAI { key_env, base_url } => {
            let endpoint = match base_url {
                Some(u) => Some(EndpointPlan::Configured(u.clone())),
                None => None,
            };
            Ok(
                TargetPlan {
                    endpoint,
                    adapter: Adapter::OpenAI,
                    auth: AuthPlan::FromEnv(key_env.clone()),
                    model: model_name,
                },
            )
        },
        ModelProviderContent::Anthropic { key_env, base_url } => {
            let endpoint = match base_url {
                Some(u) => Some(EndpointPlan::Configured(u.clone())),
                None => None,
            };
            Ok(
                TargetPlan {
                    endpoint,
                    adapter: Adapter::Anthropic,
                    auth: AuthPlan::FromEnv(key_env.clone()),
                    model: model_name,
                },
            )
        },
        ModelProviderContent::GitHub { key_env } => {
            let key = match key_env {
                Some(k) => k.clone(),
                None => String::from_str("GITHUB_TOKEN"),
            };
            Ok(
                TargetPlan {
                    endpoint: Some(EndpointPlan::Fixed("https://models.github.ai/inference/")),
                    adapter: Adapter::GithubCopilot,
                    auth: AuthPlan::FromEnv(key),
                    model: model_name,
                },
            )
        },
        ModelProviderContent::Ollama { base_url } => {
            let endpoint = match base_url {
                Some(u) => EndpointPlan::Configured(u.clone()),
                None => EndpointPlan::Fixed("http://localhost:11434/"),
            };
            Ok(
                TargetPlan {
                    endpoint: Some(endpoint),
                    adapter: Adapter::Ollama,
                    auth: AuthPlan::Key(String::from_str("ollama")),
                    model: model_name,
                },
            )
        },
        ModelProviderContent::Bedrock { access_key_env, secret_access_key_env, region } => {
            let access_name = match access_key_env {
                Some(k) => k.as_str(),
                None => "AWS_ACCESS_KEY_ID",
            };
            let secret_name = match secret_access_key_env {
                Some(k) => k.as_str(),
                None => "AWS_SECRET_ACCESS_KEY",
            };
            let access = match lookup_env(env, access_name) {
                Some(v) => v,
                None => {
                    return Err(ModelBuilderError::InvalidAccessKeyEnv(String::from_str(access_name)));
                },
            };
            let secret = match lookup_env(env, secret_name) {
                Some(v) => v,
                None => {
                    return Err(ModelBuilderError::InvalidAccessKeyEnv(String::from_str(secret_name)));
                },
            };
            let keys = vec![
                (String::from_str("aws_access_key_id"), access),
                (String::from_str("aws_secret_access_key"), secret),
                (String::from_str("aws_region"), region.clone()),
            ];
            let ghost expected = seq![
                ("aws_access_key_id"@, access@),
                ("aws_secret_access_key"@, secret@),
                ("aws_region"@, region@),
            ];
            assert(pairs_view(keys@) == expected);
            Ok(
                TargetPlan {
                    endpoint: None,
                    adapter: Adapter::BedrockSigv4,
                    auth: AuthPlan::MultiKeys(keys),
                    model: model_name,
                },
            )
        },
    }
}

#[verifier::external_type_specification]
#[verifier::external_body]
pub struct ExEndpoint(Endpoint);

#[verifier::external_type_specification]
#[verifier::external_body]
pub struct ExAuthData(AuthData);

#[verifier::external_type_specification]
#[verifier::external_body]
pub struct ExModelIden(ModelIden);

/// What `Endpoint::from_owned` makes of a URL.
pub uninterp spec fn owned_endpoint(url: Seq<char>) -> Endpoint;

/// What `Endpoint::from_static` makes of a URL.
pub uninterp spec fn static_endpoint(url: Seq<char>) -> Endpoint;

/// What `AuthData::FromEnv` makes of an environment variable's name.
pub uninterp spec fn auth_from_env(name: Seq<char>) -> AuthData;

/// What `AuthData::from_single` makes of a key.
pub uninterp spec fn auth_key(key: Seq<char>) -> AuthData;

/// What `ModelIden::new` makes of an adapter and a model name.
pub uninterp spec fn model_iden(adapter: Adapter, name: Seq<char>) -> ModelIden;

/// `genai::resolver::Endpoint::from_owned`; claimed: the result is `owned_endpoint(url@)`.
#[verifier::external_body]
fn endpoint_from_owned(url: String) -> (r: Endpoint)
    ensures
        r == owned_endpoint(url@),
{
    Endpoint::from_owned(url)
}

/// `genai::resolver::Endpoint::from_static`; claimed: the result is `static_endpoint(url@)`.
#[verifier::external_body]
fn endpoint_from_static(url: &'static str) -> (r: Endpoint)
    ensures
        r == static_endpoint(url@),
{
    Endpoint::from_static(url)
}

/// `genai::resolver::AuthData::FromEnv`; claimed: the result is `auth_from_env(name@)`.
#[verifier::external_body]
fn auth_data_from_env(name: String) -> (r: AuthData)
    ensures
        r == auth_from_env(name@),
{
    AuthData::FromEnv(name)
}

/// `genai::resolver::AuthData::from_single`; claimed: the result is `auth_key(key@)`.
#[verifier::external_body]
fn auth_data_from_single(key: String) -> (r: AuthData)
    ensures
        r == auth_key(key@),
{
    AuthData::from_single(key)
}

/// `genai::resolver::AuthData::from_multi`, on a `HashMap` holding `keys`. Nothing is
/// claimed of the result: the map inside it carries a hasher that each process seeds.
#[verifier::external_body]
fn auth_data_from_multi(keys: Vec<(String, String)>) -> AuthData {
    AuthData::from_multi(keys.into_iter().collect())
}

/// `genai::ModelIden::new`, with the `AdapterKind` of the same name as `adapter`;
/// claimed: the result is `model_iden(adapter, name@)`.
#[verifier::external_body]
fn model_iden_new(adapter: Adapter, name: &str) -> (r: ModelIden)
    ensures
        r == model_iden(adapter, name@),
{
    let kind = match adapter {
        Adapter::OpenAI => AdapterKind::OpenAI,
        Adapter::Anthropic => AdapterKind::Anthropic,
        Adapter::GithubCopilot => AdapterKind::GithubCopilot,
        Adapter::Ollama => AdapterKind::Ollama,
        Adapter::BedrockSigv4 => AdapterKind::BedrockSigv4,
    };
    ModelIden::new(kind, name)
}

/// A service target: where requests for a model go, how they authenticate, and which
/// upstream model they name.
pub struct ServiceTargetOpt {
    pub endpoint: Option<Endpoint>,
    pub auth: Option<AuthData>,
    pub model: Option<ModelIden>,
}

/// `target` is the service target that `plan` describes. Of several named
/// credentials (`MultiKeys`) only that some authentication is set is stated.
pub open spec fn realizes(target: ServiceTargetOpt, plan: TargetPlanView) -> bool {
    &&& target.endpoint == match plan.endpoint {
        Some(EndpointView::Configured(u)) => Some(owned_endpoint(u)),
        Some(EndpointView::Fixed(u)) => Some(static_endpoint(u)),
        None => None,
    }
    &&& target.model == Some(model_iden(plan.adapter, plan.model))
    &&& match plan.auth {
        AuthView::FromEnv(name) => target.auth == Some(auth_from_env(name)),
        AuthView::Key(key) => target.auth == Some(auth_key(key)),
        AuthView::MultiKeys(_) => target.auth is Some,
    }
}

/// Makes the `genai` values that a plan describes.
pub fn realize(plan: TargetPlan) -> (r: ServiceTargetOpt)
    ensures
        realizes(r, plan@),
{
    let model = model_iden_new(plan.adapter, plan.model.as_str());
    let endpoint = match plan.endpoint {
        Some(EndpointPlan::Configured(u)) => Some(endpoint_from_owned(u)),
        Some(EndpointPlan::Fixed(u)) => Some(endpoint_from_static(u)),
        None => None,
    };
    let auth = match plan.auth {
        AuthPlan::FromEnv(name) => auth_data_from_env(name),
        AuthPlan::Key(key) => auth_data_from_single(key),
        AuthPlan::MultiKeys(keys) => auth_data_from_multi(keys),
    };
    ServiceTargetOpt { endpoint, auth: Some(auth), model: Some(model) }
}

/// The providers by id, the later of two entries with one id replacing the earlier
/// (as collecting them into a map does).
pub open spec fn providers_by_id(providers: Seq<ModelProviderConfig>) -> Map<Seq<char>, ModelProviderConfig>
    decreases providers.len(),
{
    if providers.len() == 0 {
        Map::empty()
    } else {
        providers_by_id(providers.drop_last()).insert(providers.last().id@, providers.last())
    }
}

/// Builds the service targets of the configured models.
pub struct ProviderBuilder {
    models: Vec<ModelConfig>,
    provider: StringHashMap<ModelProviderConfig>,
}

impl ProviderBuilder {
    /// The models to build targets for, in configuration order.
    pub closed spec fn model_list(&self) -> Seq<ModelConfig> {
        self.models@
    }

    /// The providers by id.
    pub closed spec fn provider_table(&self) -> Map<Seq<char>, ModelProviderConfig> {
        self.provider@
    }

    /// Indexes the providers by id; of two providers with one id the later wins.
    pub fn new(providers: Vec<ModelProviderConfig>, models: Vec<ModelConfig>) -> (r: Self)
        ensures
            r.model_list() == models@,
            r.provider_table() == providers_by_id(providers@),
    {
        let ghost all = providers@;
        let mut rest = providers;
        let mut table: StringHashMap<ModelProviderConfig> = StringHashMap::new();
        let n = rest.len();
        let mut i: usize = 0;
        assert(all.take(0) == Seq::<ModelProviderConfig>::empty());
        while i < n
            invariant
                i <= n,
                n == all.len(),
                rest@ == all.skip(i as int),
                table@ == providers_by_id(all.take(i as int)),
            decreases n - i,
        {
            let config = rest.remove(0);
            assert(config == all[i as int]);
            assert(all.take(i + 1).drop_last() == all.take(i as int));
            assert(all.skip(i as int).remove(0) == all.skip(i + 1));
            table.insert(config.id.clone(), config);
            i = i + 1;
        }
        assert(all.take(n as int) == all);
        ProviderBuilder { models, provider: table }
    }

    /// Builds the service target of one model (see `plan_of` and `realizes`).
    pub fn build_for_model(
        model: ModelConfig,
        provider: &StringHashMap<ModelProviderConfig>,
        env: &Vec<(String, String)>,
    ) -> (r: Result<ServiceTargetOpt, ModelBuilderError>)
        ensures
            match plan_of(model, provider@, env@) {
                Ok(plan) => r matches Ok(target) && realizes(target, plan),
                Err(e) => r matches Err(err) && err@ == e,
            },
    {
        match plan_for_model(&model, provider, env) {
            Ok(plan) => Ok(realize(plan)),
            Err(e) => Err(e),
        }
    }

    /// Builds the service targets of all models, by model id (see `plans_of`): the
    /// first model whose target cannot be built gives the error.
    pub fn build(self, env: &Vec<(String, String)>) -> (r: Result<Vec<(String, ServiceTargetOpt)>, ModelBuilderError>)
        ensures
            match plans_of(self.model_list(), self.provider_table(), env@) {
                Ok(plans) => r matches Ok(targets) && targets_for(targets@, plans),
                Err(e) => r matches Err(err) && err@ == e,
            },
    {
        let ghost all = self.model_list();
        let ghost providers = self.provider_table();
        let provider = self.provider;
        let mut rest = self.models;
        let mut out: Vec<(String, ServiceTargetOpt)> = Vec::new();
        let n = rest.len();
        let mut i: usize = 0;
        assert(all.take(0) == Seq::<ModelConfig>::empty());
        while i < n
            invariant
                i <= n,
                n == all.len(),
                rest@ == all.skip(i as int),
                provider@ == providers,
                all == self.model_list(),
                providers == self.provider_table(),
                plans_of(all.take(i as int), providers, env@) matches Ok(plans) && targets_for(
                    out@,
                    plans,
                ),
            decreases n - i,
        {
            let model = rest.remove(0);
            assert(model == all[i as int]);
            assert(all.take(i + 1).drop_last() == all.take(i as int));
            assert(all.skip(i as int).remove(0) == all.skip(i + 1));
            let ghost plans = plans_of(all.take(i as int), providers, env@)->Ok_0;
            let id = model.id.clone();
            let target = match Self::build_for_model(model, &provider, env) {
                Ok(t) => t,
                Err(e) => {
                    proof {
                        assert(plans_of(all.take(i + 1), providers, env@) == Err::<
                            Map<Seq<char>, TargetPlanView>,
                            _,
                        >(e@));
                        lemma_error_persists(all, i + 1, providers, env@);
                        assert(plans_of(all.take(n as int), providers, env@) == Err::<
                            Map<Seq<char>, TargetPlanView>,
                            _,
                        >(e@));
                        assert(all.take(n as int) == all);
                        assert(plans_of(all, providers, env@) == Err::<
                            Map<Seq<char>, TargetPlanView>,
                            _,
                        >(e@));
                    }
                    return Err(e);
                },
            };
            let ghost plan = plan_of(all[i as int], providers, env@)->Ok_0;
            let ghost next = plans.insert(id@, plan);
            let ghost before = out@;
            let m = out.len();
            let mut j: usize = 0;
            while j < m && !str_eq(out[j].0.as_str(), id.as_str())
                invariant
                    j <= m,
                    m == out@.len(),
                    out@ == before,
                    forall|k: int| 0 <= k < j ==> out@[k].0@ != id@,
                decreases m - j,
            {
                j = j + 1;
            }
            if j < m {
                out.set(j, (id, target));
            } else {
                out.push((id, target));
            }
            proof {
                assert forall|a: int, b: int|
                    0 <= a < out@.len() && 0 <= b < out@.len() && a != b implies out@[a].0@
                    != out@[b].0@ by {
                    if a != j as int && b != j as int {
                        assert(out@[a] == before[a] && out@[b] == before[b]);
                    }
                }
                assert forall|a: int| 0 <= a < out@.len() implies next.contains_key(
                    #[trigger] out@[a].0@,
                ) && realizes(out@[a].1, next[out@[a].0@]) by {
                    if a != j as int {
                        assert(out@[a] == before[a]);
                    }
                }
                assert forall|key: Seq<char>| next.contains_key(key) implies exists|a: int|
                    0 <= a < out@.len() && #[trigger] out@[a].0@ == key by {
                    if key == id@ {
                        assert(out@[j as int].0@ == key);
                    } else {
                        let a = choose|a: int| 0 <= a < before.len() && #[trigger] before[a].0@ == key;
                        assert(out@[a] == before[a]);
                    }
                }
            }
            i = i + 1;
        }
        assert(all.take(n as int) == all);
        Ok(out)
    }
}

/// The target plans of `models` by model id: the first model whose plan fails gives
/// the error, and of two models with one id the later wins.
pub open spec fn plans_of(
    models: Seq<ModelConfig>,
    providers: Map<Seq<char>, ModelProviderConfig>,
    env: Seq<(String, String)>,
) -> Result<Map<Seq<char>, TargetPlanView>, ModelBuilderErrorView>
    decreases models.len(),
{
    if models.len() == 0 {
        Ok(Map::empty())
    } else {
        match plans_of(models.drop_last(), providers, env) {
            Err(e) => Err(e),
            Ok(plans) => match plan_of(models.last(), providers, env) {
                Err(e) => Err(e),
                Ok(plan) => Ok(plans.insert(models.last().id@, plan)),
            },
        }
    }
}

/// Once the plans of a prefix of the models fail, the plans of every longer prefix fail
/// with the same error.
proof fn lemma_error_persists(
    models: Seq<ModelConfig>,
    k: int,
    providers: Map<Seq<char>, ModelProviderConfig>,
    env: Seq<(String, String)>,
)
    requires
        0 <= k <= models.len(),
        plans_of(models.take(k), providers, env) is Err,
    ensures
        forall|j: int|
            k <= j <= models.len() ==> #[trigger] plans_of(models.take(j), providers, env)
                == plans_of(models.take(k), providers, env),
    decreases models.len() - k,
{
    if k < models.len() {
        assert(models.take(k + 1).drop_last() == models.take(k));
        lemma_error_persists(models, k + 1, providers, env);
    }
}

/// `targets` holds, once per model id, the service target of that id's plan.
pub open spec fn targets_for(
    targets: Seq<(String, ServiceTargetOpt)>,
    plans: Map<Seq<char>, TargetPlanView>,
) -> bool {
    &&& forall|a: int, b: int|
        0 <= a < targets.len() && 0 <= b < targets.len() && a != b ==> targets[a].0@
            != targets[b].0@
    &&& forall|a: int|
        0 <= a < targets.len() ==> plans.contains_key(#[trigger] targets[a].0@) && realizes(
            targets[a].1,
            plans[targets[a].0@],
        )
    &&& forall|key: Seq<char>|
        plans.contains_key(key) ==> exists|a: int| 0 <= a < targets.len() && #[trigger] targets[a].0@ == key
}

/// Indexing providers by id keeps every id that occurs and, for each, the provider
/// that occurs last with it.
pub proof fn law_providers_by_id(providers: Seq<ModelProviderConfig>)
    ensures
        forall|key: Seq<char>|
            providers_by_id(providers).contains_key(key) <==> exists|i: int|
                0 <= i < providers.len() && (#[trigger] providers[i]).id@ == key,
        forall|i: int|
            0 <= i < providers.len() && (forall|j: int|
                i < j < providers.len() ==> (#[trigger] providers[j]).id@ != providers[i].id@)
                ==> providers_by_id(providers)[(#[trigger] providers[i]).id@] == providers[i],
    decreases providers.len(),
{
    if providers.len() > 0 {
        let init = providers.drop_last();
        law_providers_by_id(init);
        assert(providers_by_id(providers) == providers_by_id(init).insert(
            providers.last().id@,
            providers.last(),
        ));
        assert forall|key: Seq<char>|
            providers_by_id(providers).contains_key(key) implies exists|i: int|
                0 <= i < providers.len() && (#[trigger] providers[i]).id@ == key by {
            if key != providers.last().id@ {
                assert(providers_by_id(init).contains_key(key));
                let i = choose|i: int| 0 <= i < init.len() && (#[trigger] init[i]).id@ == key;
                assert(providers[i] == init[i]);
            } else {
                assert(providers[providers.len() - 1].id@ == key);
            }
        }
        assert forall|key: Seq<char>|
            (exists|i: int| 0 <= i < providers.len() && (#[trigger] providers[i]).id@ == key)
                implies providers_by_id(providers).contains_key(key) by {
            let i = choose|i: int| 0 <= i < providers.len() && (#[trigger] providers[i]).id@ == key;
            if i < init.len() {
                assert(init[i] == providers[i]);
            }
        }
        assert forall|i: int|
            0 <= i < providers.len() && (forall|j: int|
                i < j < providers.len() ==> (#[trigger] providers[j]).id@ != providers[i].id@)
                implies providers_by_id(providers)[(#[trigger] providers[i]).id@] == providers[i] by {
            if i < init.len() {
                assert(init[i] == providers[i]);
                assert forall|j: int| i < j < init.len() implies (#[trigger] init[j]).id@
                    != init[i].id@ by {
                    assert(init[j] == providers[j]);
                }
            }
        }
    }
}

/// Building succeeds exactly when every model's plan succeeds; otherwise it fails with
/// the error of the first model whose plan fails.
pub proof fn law_build_fails_at_first_error(
    models: Seq<ModelConfig>,
    providers: Map<Seq<char>, ModelProviderConfig>,
    env: Seq<(String, String)>,
)
    ensures
        plans_of(models, providers, env) is Ok <==> forall|i: int|
            0 <= i < models.len() ==> plan_of(#[trigger] models[i], providers, env) is Ok,
        forall|f: int|
            0 <= f < models.len() && plan_of(#[trigger] models[f], providers, env) is Err && (
            forall|i: int| 0 <= i < f ==> plan_of(#[trigger] models[i], providers, env) is Ok)
                ==> plans_of(models, providers, env) == Err::<Map<Seq<char>, TargetPlanView>, _>(
                plan_of(models[f], providers, env)->Err_0,
            ),
    decreases models.len(),
{
    if models.len() > 0 {
        let init = models.drop_last();
        law_build_fails_at_first_error(init, providers, env);
        assert forall|i: int| 0 <= i < init.len() implies init[i] == models[i] by {}
        assert forall|f: int|
            0 <= f < models.len() && plan_of(#[trigger] models[f], providers, env) is Err && (
            forall|i: int| 0 <= i < f ==> plan_of(#[trigger] models[i], providers, env) is Ok)
                implies plans_of(models, providers, env) == Err::<
                Map<Seq<char>, TargetPlanView>,
                _,
            >(plan_of(models[f], providers, env)->Err_0) by {
            if f < init.len() {
                assert(plan_of(init[f], providers, env) is Err);
                assert forall|i: int| 0 <= i < f implies plan_of(#[trigger] init[i], providers, env) is Ok by {
                    assert(init[i] == models[i]);
                }
            } else {
                assert forall|i: int| 0 <= i < init.len() implies plan_of(#[trigger] init[i], providers, env) is Ok by {
                    assert(init[i] == models[i]);
                }
            }
        }
        if plans_of(models, providers, env) is Ok {
            assert forall|i: int| 0 <= i < models.len() implies plan_of(#[trigger] models[i], providers, env) is Ok by {
                if i < init.len() {
                    assert(plan_of(init[i], providers, env) is Ok);
                }
            }
        }
        if forall|i: int| 0 <= i < models.len() ==> plan_of(#[trigger] models[i], providers, env) is Ok {
            assert forall|i: int| 0 <= i < init.len() implies plan_of(#[trigger] init[i], providers, env) is Ok by {
                assert(init[i] == models[i]);
                assert(plan_of(models[i], providers, env) is Ok);
            }
            assert(plan_of(models[models.len() - 1], providers, env) is Ok);
        }
    }
}

/// Of several models with one id, the target of the last one is kept; every model id
/// gets a target.
pub proof fn law_build_last_model_wins(
    models: Seq<ModelConfig>,
    providers: Map<Seq<char>, ModelProviderConfig>,
    env: Seq<(String, String)>,
)
    requires
        plans_of(models, providers, env) is Ok,
    ensures
        forall|key: Seq<char>|
            plans_of(models, providers, env)->Ok_0.contains_key(key) <==> exists|i: int|
                0 <= i < models.len() && (#[trigger] models[i]).id@ == key,
        forall|i: int|
            0 <= i < models.len() && (forall|j: int|
                i < j < models.len() ==> (#[trigger] models[j]).id@ != models[i].id@)
                ==> plans_of(models, providers, env)->Ok_0[(#[trigger] models[i]).id@] == plan_of(
                models[i],
                providers,
                env,
            )->Ok_0,
    decreases models.len(),
{
    if models.len() > 0 {
        let init = models.drop_last();
        law_build_last_model_wins(init, providers, env);
        let plans = plans_of(models, providers, env)->Ok_0;
        assert forall|key: Seq<char>| plans.contains_key(key) implies exists|i: int|
            0 <= i < models.len() && (#[trigger] models[i]).id@ == key by {
            if key != models.last().id@ {
                let i = choose|i: int| 0 <= i < init.len() && (#[trigger] init[i]).id@ == key;
                assert(models[i] == init[i]);
            }
        }
        assert forall|key: Seq<char>|
            (exists|i: int| 0 <= i < models.len() && (#[trigger] models[i]).id@ == key)
                implies plans.contains_key(key) by {
            let i = choose|i: int| 0 <= i < models.len() && (#[trigger] models[i]).id@ == key;
            if i < init.len() {
                assert(init[i] == models[i]);
            }
        }
        assert forall|i: int|
            0 <= i < models.len() && (forall|j: int|
                i < j < models.len() ==> (#[trigger] models[j]).id@ != models[i].id@)
                implies plans[(#[trigger] models[i]).id@] == plan_of(models[i], providers, env)->Ok_0 by {
            if i < init.len() {
                assert(init[i] == models[i]);
                assert forall|j: int| i < j < init.len() implies (#[trigger] init[j]).id@
                    != init[i].id@ by {
                    assert(init[j] == models[j]);
                }
            }
        }
    }
}

/// Only Bedrock providers read the environment: for every other model the plan is the
/// same whatever the environment holds.
pub proof fn law_environment_only_for_bedrock(
    model: ModelConfig,
    providers: Map<Seq<char>, ModelProviderConfig>,
    env1: Seq<(String, String)>,
    env2: Seq<(String, String)>,
)
    requires
        providers.contains_key(model.provider@) ==> !(providers[model.provider@].content is Bedrock),
    ensures
        plan_of(model, providers, env1) == plan_of(model, providers, env2),
{
}

/// A model whose provider is absent fails with `ProviderNotFound` naming that provider;
/// otherwise every plan names the model entry's upstream `model` (never its id), and
/// the adapter is the one of the provider's kind.
pub proof fn law_plan_model_and_adapter(
    model: ModelConfig,
    providers: Map<Seq<char>, ModelProviderConfig>,
    env: Seq<(String, String)>,
)
    ensures
        !providers.contains_key(model.provider@) ==> plan_of(model, providers, env) == Err::<
            TargetPlanView,
            _,
        >(ModelBuilderErrorView::ProviderNotFound(model.provider@)),
        plan_of(model, providers, env) matches Ok(plan) ==> {
            &&& providers.contains_key(model.provider@)
            &&& plan.model == model.model@
            &&& plan.adapter == match providers[model.provider@].content {
                ModelProviderContent::OpenAI { .. } => Adapter::OpenAI,
                ModelProviderContent::Anthropic { .. } => Adapter::Anthropic,
                ModelProviderContent::GitHub { .. } => Adapter::GithubCopilot,
                ModelProviderContent::Ollama { .. } => Adapter::Ollama,
                ModelProviderContent::Bedrock { .. } => Adapter::BedrockSigv4,
            }
        },
        providers.contains_key(model.provider@) && !(providers[model.provider@].content is Bedrock)
            ==> plan_of(model, providers, env) is Ok,
{
}

/// Endpoints and keys of the providers that need no environment: a configured base URL
/// is used as given; GitHub goes to `https://models.github.ai/inference/` with the key
/// from `key_env` or else `GITHUB_TOKEN`; Ollama defaults to `http://localhost:11434/`
/// with the key `ollama`; OpenAI and Anthropic without a base URL use the adapter's own
/// endpoint and read the key from `key_env`.
pub proof fn law_plan_endpoint_and_auth(
    model: ModelConfig,
    providers: Map<Seq<char>, ModelProviderConfig>,
    env: Seq<(String, String)>,
)
    requires
        providers.contains_key(model.provider@),
    ensures
        ({
            let plan = plan_of(model, providers, env)->Ok_0;
            match providers[model.provider@].content {
                ModelProviderContent::OpenAI { base_url, key_env } => {
                    &&& (base_url matches Some(u) ==> plan.endpoint == Some(
                        EndpointView::Configured(u@),
                    ))
                    &&& (base_url is None ==> plan.endpoint is None)
                    &&& plan.auth == AuthView::FromEnv(key_env@)
                },
                ModelProviderContent::Anthropic { base_url, key_env } => {
                    &&& (base_url matches Some(u) ==> plan.endpoint == Some(
                        EndpointView::Configured(u@),
                    ))
                    &&& (base_url is None ==> plan.endpoint is None)
                    &&& plan.auth == AuthView::FromEnv(key_env@)
                },
                ModelProviderContent::GitHub { key_env } => {
                    &&& plan.endpoint == Some(
                        EndpointView::Fixed("https://models.github.ai/inference/"@),
                    )
                    &&& (key_env matches Some(k) ==> plan.auth == AuthView::FromEnv(k@))
                    &&& (key_env is None ==> plan.auth == AuthView::FromEnv("GITHUB_TOKEN"@))
                },
                ModelProviderContent::Ollama { base_url } => {
                    &&& (base_url matches Some(u) ==> plan.endpoint == Some(
                        EndpointView::Configured(u@),
                    ))
                    &&& (base_url is None ==> plan.endpoint == Some(
                        EndpointView::Fixed("http://localhost:11434/"@),
                    ))
                    &&& plan.auth == AuthView::Key("ollama"@)
                },
                ModelProviderContent::Bedrock { .. } => true,
            }
        }),
{
}

/// Bedrock credentials come from the environment: the access key from the variable named
/// by `access_key_env` (else `AWS_ACCESS_KEY_ID`), the secret from the one named by
/// `secret_access_key_env` (else `AWS_SECRET_ACCESS_KEY`). The first of the two that is
/// missing is reported by its name; with both present the plan has no endpoint and the
/// credentials `aws_access_key_id`, `aws_secret_access_key` and `aws_region`.
pub proof fn law_bedrock_credentials(
    model: ModelConfig,
    providers: Map<Seq<char>, ModelProviderConfig>,
    env: Seq<(String, String)>,
    region: String,
    access_key_env: Option<String>,
    secret_access_key_env: Option<String>,
)
    requires
        providers.contains_key(model.provider@),
        providers[model.provider@].content == (ModelProviderContent::Bedrock {
            region,
            access_key_env,
            secret_access_key_env,
        }),
    ensures
        ({
            let access_name = match access_key_env {
                Some(k) => k@,
                None => "AWS_ACCESS_KEY_ID"@,
            };
            let secret_name = match secret_access_key_env {
                Some(k) => k@,
                None => "AWS_SECRET_ACCESS_KEY"@,
            };
            let r = plan_of(model, providers, env);
            &&& (env_value(env, access_name) is None ==> r == Err::<TargetPlanView, _>(
                ModelBuilderErrorView::InvalidAccessKeyEnv(access_name),
            ))
            &&& (env_value(env, access_name) is Some && env_value(env, secret_name) is None ==> r
                == Err::<TargetPlanView, _>(
                ModelBuilderErrorView::InvalidAccessKeyEnv(secret_name),
            ))
            &&& (env_value(env, access_name) matches Some(access) ==> env_value(env, secret_name) matches Some(
                secret,
            ) ==> {
                &&& r is Ok
                &&& r->Ok_0.endpoint is None
                &&& r->Ok_0.auth == AuthView::MultiKeys(
                    seq![
                        ("aws_access_key_id"@, access),
                        ("aws_secret_access_key"@, secret),
                        ("aws_region"@, region@),
                    ],
                )
            })
        }),
{
}

/// The service target built for a model follows the model's provider entry: it names the
/// entry's upstream model with the adapter of the provider's kind, uses a configured base
/// URL as given (GitHub and a bare Ollama get their fixed defaults, OpenAI, Anthropic
/// without a base URL and Bedrock get none), and authenticates with the configured key
/// variable, `GITHUB_TOKEN` for GitHub by default, or the key `ollama`.
pub proof fn law_target_follows_provider(
    target: ServiceTargetOpt,
    model: ModelConfig,
    providers: Map<Seq<char>, ModelProviderConfig>,
    env: Seq<(String, String)>,
)
    requires
        plan_of(model, providers, env) is Ok,
        realizes(target, plan_of(model, providers, env)->Ok_0),
    ensures
        providers.contains_key(model.provider@),
        match providers[model.provider@].content {
            ModelProviderContent::OpenAI { base_url, key_env } => {
                &&& target.model == Some(model_iden(Adapter::OpenAI, model.model@))
                &&& target.endpoint == match base_url {
                    Some(u) => Some(owned_endpoint(u@)),
                    None => None,
                }
                &&& target.auth == Some(auth_from_env(key_env@))
            },
            ModelProviderContent::Anthropic { base_url, key_env } => {
                &&& target.model == Some(model_iden(Adapter::Anthropic, model.model@))
                &&& target.endpoint == match base_url {
                    Some(u) => Some(owned_endpoint(u@)),
                    None => None,
                }
                &&& target.auth == Some(auth_from_env(key_env@))
            },
            ModelProviderContent::GitHub { key_env } => {
                &&& target.model == Some(model_iden(Adapter::GithubCopilot, model.model@))
                &&& target.endpoint == Some(static_endpoint("https://models.github.ai/inference/"@))
                &&& target.auth == Some(
                    auth_from_env(
                        match key_env {
                            Some(k) => k@,
                            None => "GITHUB_TOKEN"@,
                        },
                    ),
                )
            },
            ModelProviderContent::Ollama { base_url } => {
                &&& target.model == Some(model_iden(Adapter::Ollama, model.model@))
                &&& target.endpoint == Some(
                    match base_url {
                        Some(u) => owned_endpoint(u@),
                        None => static_endpoint("http://localhost:11434/"@),
                    },
                )
                &&& target.auth == Some(auth_key("ollama"@))
            },
            ModelProviderContent::Bedrock { .. } => {
                &&& target.model == Some(model_iden(Adapter::BedrockSigv4, model.model@))
                &&& target.endpoint is None
                &&& target.auth is Some
            },
        },
{
}

} // verus!
