use agent_reviewer::builder::{
    lookup_env, plan_for_model, Adapter, AuthPlan, EndpointPlan, ModelBuilderError,
    ProviderBuilder, ServiceTargetOpt,
};
use agent_reviewer::config::{ModelConfig, ModelProviderConfig, ModelProviderContent};
use genai::adapter::AdapterKind;
use genai::resolver::AuthData;
use vstd::hash_map::StringHashMap;

fn model(id: &str, model: &str, provider: &str) -> ModelConfig {
    ModelConfig { id: id.to_string(), model: model.to_string(), provider: provider.to_string() }
}

fn provider(id: &str, content: ModelProviderContent) -> ModelProviderConfig {
    ModelProviderConfig { id: id.to_string(), content }
}

fn table(providers: Vec<ModelProviderConfig>) -> StringHashMap<ModelProviderConfig> {
    let mut t = StringHashMap::new();
    for p in providers {
        t.insert(p.id.clone(), p);
    }
    t
}

fn env(pairs: &[(&str, &str)]) -> Vec<(String, String)> {
    pairs.iter().map(|(k, v)| (k.to_string(), v.to_string())).collect()
}

fn openai(id: &str, base_url: Option<&str>, key_env: &str) -> ModelProviderConfig {
    provider(
        id,
        ModelProviderContent::OpenAI {
            base_url: base_url.map(|s| s.to_string()),
            key_env: key_env.to_string(),
        },
    )
}

fn bedrock(id: &str) -> ModelProviderConfig {
    provider(
        id,
        ModelProviderContent::Bedrock {
            region: "us-east-1".to_string(),
            access_key_env: None,
            secret_access_key_env: Some("MY_SECRET".to_string()),
        },
    )
}

fn endpoint_url(t: &ServiceTargetOpt) -> Option<String> {
    t.endpoint.as_ref().map(|e| e.base_url().to_string())
}

fn auth_env(t: &ServiceTargetOpt) -> String {
    match t.auth.as_ref() {
        Some(AuthData::FromEnv(name)) => name.clone(),
        _ => panic!("expected FromEnv"),
    }
}

#[test]
fn model_config_getters() {
    let m = model("fast", "gpt-4.1-mini", "oa");
    assert_eq!(m.id(), "fast");
    assert_eq!(m.model(), "gpt-4.1-mini");
}

#[test]
fn openai_target() {
    let providers = table(vec![openai("oa", Some("https://proxy.example/v1/"), "OA_KEY")]);
    let t = ProviderBuilder::build_for_model(model("m", "gpt-4.1", "oa"), &providers, &env(&[]))
        .ok()
        .unwrap();
    assert_eq!(endpoint_url(&t).as_deref(), Some("https://proxy.example/v1/"));
    assert_eq!(auth_env(&t), "OA_KEY");
    let iden = t.model.unwrap();
    assert_eq!(iden.adapter_kind, AdapterKind::OpenAI);
    assert_eq!(iden.model_name.as_str(), "gpt-4.1");
}

#[test]
fn anthropic_target_without_base_url() {
    let providers = table(vec![provider(
        "an",
        ModelProviderContent::Anthropic { base_url: None, key_env: "AN_KEY".to_string() },
    )]);
    let t = ProviderBuilder::build_for_model(model("m", "sonnet-4", "an"), &providers, &env(&[]))
        .ok()
        .unwrap();
    assert!(t.endpoint.is_none());
    assert_eq!(auth_env(&t), "AN_KEY");
    assert_eq!(t.model.unwrap().adapter_kind, AdapterKind::Anthropic);
}

#[test]
fn github_defaults() {
    let providers = table(vec![provider("gh", ModelProviderContent::GitHub { key_env: None })]);
    let t = ProviderBuilder::build_for_model(model("m", "openai/gpt-4.1", "gh"), &providers, &env(&[]))
        .ok()
        .unwrap();
    assert_eq!(endpoint_url(&t).as_deref(), Some("https://models.github.ai/inference/"));
    assert_eq!(auth_env(&t), "GITHUB_TOKEN");
    assert_eq!(t.model.unwrap().adapter_kind, AdapterKind::GithubCopilot);

    let providers = table(vec![provider(
        "gh",
        ModelProviderContent::GitHub { key_env: Some("GH_PAT".to_string()) },
    )]);
    let t = ProviderBuilder::build_for_model(model("m", "x", "gh"), &providers, &env(&[]))
        .ok()
        .unwrap();
    assert_eq!(auth_env(&t), "GH_PAT");
}

#[test]
fn ollama_defaults_and_override() {
    let providers = table(vec![
        provider("local", ModelProviderContent::Ollama { base_url: None }),
        provider(
            "remote",
            ModelProviderContent::Ollama { base_url: Some("http://gpu-box:11434/".to_string()) },
        ),
    ]);
    let t = ProviderBuilder::build_for_model(model("m", "qwen3", "local"), &providers, &env(&[]))
        .ok()
        .unwrap();
    assert_eq!(endpoint_url(&t).as_deref(), Some("http://localhost:11434/"));
    assert!(matches!(t.auth.as_ref(), Some(AuthData::Key(k)) if k == "ollama"));
    assert_eq!(t.model.as_ref().unwrap().adapter_kind, AdapterKind::Ollama);
    let t = ProviderBuilder::build_for_model(model("m", "qwen3", "remote"), &providers, &env(&[]))
        .ok()
        .unwrap();
    assert_eq!(endpoint_url(&t).as_deref(), Some("http://gpu-box:11434/"));
}

#[test]
fn bedrock_reads_environment() {
    let providers = table(vec![bedrock("aws")]);
    let e = env(&[("AWS_ACCESS_KEY_ID", "AKIA"), ("MY_SECRET", "s3cr3t"), ("AWS_ACCESS_KEY_ID", "later")]);
    let t = ProviderBuilder::build_for_model(model("m", "anthropic.sonnet", "aws"), &providers, &e)
        .ok()
        .unwrap();
    assert!(t.endpoint.is_none());
    assert_eq!(t.model.as_ref().unwrap().adapter_kind, AdapterKind::BedrockSigv4);
    match t.auth.as_ref() {
        Some(AuthData::MultiKeys(keys)) => {
            assert_eq!(keys.len(), 3);
            assert_eq!(keys["aws_access_key_id"], "AKIA");
            assert_eq!(keys["aws_secret_access_key"], "s3cr3t");
            assert_eq!(keys["aws_region"], "us-east-1");
        }
        _ => panic!("expected MultiKeys"),
    }
}

#[test]
fn bedrock_missing_access_key() {
    let providers = table(vec![bedrock("aws")]);
    let err = ProviderBuilder::build_for_model(model("m", "x", "aws"), &providers, &env(&[("MY_SECRET", "s")]))
        .err()
        .unwrap();
    assert!(matches!(&err, ModelBuilderError::InvalidAccessKeyEnv(n) if n == "AWS_ACCESS_KEY_ID"));
    assert_eq!(err.message(), "Invalid access key environment variable: AWS_ACCESS_KEY_ID");
}

#[test]
fn bedrock_missing_secret_key() {
    let providers = table(vec![bedrock("aws")]);
    let err = ProviderBuilder::build_for_model(
        model("m", "x", "aws"),
        &providers,
        &env(&[("AWS_ACCESS_KEY_ID", "a")]),
    )
    .err()
    .unwrap();
    assert!(matches!(&err, ModelBuilderError::InvalidAccessKeyEnv(n) if n == "MY_SECRET"));
}

#[test]
fn provider_not_found() {
    let providers = table(vec![openai("oa", None, "K")]);
    let err = ProviderBuilder::build_for_model(model("m", "x", "nope"), &providers, &env(&[]))
        .err()
        .unwrap();
    assert!(matches!(&err, ModelBuilderError::ProviderNotFound(n) if n == "nope"));
    assert_eq!(err.message(), "Provider not found: nope");
}

#[test]
fn plan_for_model_is_plain() {
    let providers = table(vec![openai("oa", None, "K")]);
    let plan = plan_for_model(&model("m", "gpt", "oa"), &providers, &env(&[])).ok().unwrap();
    assert!(plan.endpoint.is_none());
    assert_eq!(plan.adapter, Adapter::OpenAI);
    assert!(matches!(plan.auth, AuthPlan::FromEnv(ref k) if k == "K"));
    assert_eq!(plan.model, "gpt");
    let providers = table(vec![provider("gh", ModelProviderContent::GitHub { key_env: None })]);
    let plan = plan_for_model(&model("m", "gpt", "gh"), &providers, &env(&[])).ok().unwrap();
    assert!(matches!(plan.endpoint, Some(EndpointPlan::Fixed(u)) if u == "https://models.github.ai/inference/"));
}

#[test]
fn later_provider_with_same_id_wins() {
    let builder = ProviderBuilder::new(
        vec![openai("p", None, "FIRST"), openai("q", None, "OTHER"), openai("p", None, "SECOND")],
        vec![model("m", "gpt", "p")],
    );
    let targets = builder.build(&env(&[])).ok().unwrap();
    assert_eq!(targets.len(), 1);
    assert_eq!(targets[0].0, "m");
    assert_eq!(auth_env(&targets[0].1), "SECOND");
}

#[test]
fn build_keys_targets_by_model_id_last_wins() {
    let builder = ProviderBuilder::new(
        vec![openai("p", None, "K")],
        vec![model("a", "one", "p"), model("b", "two", "p"), model("a", "three", "p")],
    );
    let targets = builder.build(&env(&[])).ok().unwrap();
    assert_eq!(targets.len(), 2);
    let a = targets.iter().find(|(k, _)| k == "a").unwrap();
    assert_eq!(a.1.model.as_ref().unwrap().model_name.as_str(), "three");
    let b = targets.iter().find(|(k, _)| k == "b").unwrap();
    assert_eq!(b.1.model.as_ref().unwrap().model_name.as_str(), "two");
}

#[test]
fn build_fails_at_first_failing_model() {
    let builder = ProviderBuilder::new(
        vec![openai("p", None, "K"), bedrock("aws")],
        vec![model("a", "one", "p"), model("b", "two", "missing"), model("c", "three", "aws")],
    );
    let err = builder.build(&env(&[])).err().unwrap();
    assert!(matches!(&err, ModelBuilderError::ProviderNotFound(n) if n == "missing"));
}

#[test]
fn build_with_no_models_is_empty() {
    let builder = ProviderBuilder::new(vec![], vec![]);
    assert!(builder.build(&env(&[])).ok().unwrap().is_empty());
}

#[test]
fn environment_does_not_matter_outside_bedrock() {
    let providers = table(vec![openai("oa", Some("u"), "K")]);
    let a = plan_for_model(&model("m", "x", "oa"), &providers, &env(&[])).ok().unwrap();
    let b = plan_for_model(&model("m", "x", "oa"), &providers, &env(&[("K", "v"), ("OTHER", "w")]))
        .ok()
        .unwrap();
    assert_eq!(format!("{:?}", a), format!("{:?}", b));
}

#[test]
fn lookup_env_takes_first_entry() {
    let e = env(&[("A", "1"), ("B", "2"), ("A", "3")]);
    assert_eq!(lookup_env(&e, "A").as_deref(), Some("1"));
    assert_eq!(lookup_env(&e, "B").as_deref(), Some("2"));
    assert_eq!(lookup_env(&e, "C"), None);
}
