use kv_router::component::slugify;
use kv_router::component::Instance;
use kv_router::component::Namespace;
use kv_router::component::TransportType;
use kv_router::local_model::check_valid_local_repo_path;
use kv_router::local_model::LocalModel;
use kv_router::local_model::ModelDeploymentCard;
use kv_router::local_model::RepoPathError;
use kv_router::opt::Input;
use kv_router::opt::OptionError;
use kv_router::opt::Output;

#[test]
fn component_names() {
    let ns = Namespace::new("dynamo".to_string(), false);
    assert_eq!(ns.name(), "dynamo");
    let c = ns.component("Backend".to_string());
    assert_eq!(c.name(), "Backend");
    assert_eq!(c.namespace().name(), "dynamo");
    assert_eq!(c.path(), "dynamo/Backend");
    assert_eq!(c.etcd_root(), "instances/dynamo/Backend");
    assert_eq!(c.service_name(), "dynamo_backend");
    let e = c.endpoint("generate".to_string());
    assert_eq!(e.name(), "generate");
    assert_eq!(e.component().name(), "Backend");
    assert_eq!(e.path(), "dynamo/Backend/generate");
    assert_eq!(e.etcd_root(), "instances/dynamo/Backend/generate");
    assert_eq!(e.etcd_path(0x1a), "instances/dynamo/Backend/generate:1a");
    assert_eq!(e.etcd_path(0), "instances/dynamo/Backend/generate:0");
    assert_eq!(e.name_with_id(-1), "generate-ffffffffffffffff");
    assert_eq!(e.subject(), "dynamo_backend.generate");
    assert_eq!(e.subject_to(255), "dynamo_backend.generate-ff");
    let id = e.id();
    assert_eq!(id.namespace, "dynamo");
    assert_eq!(id.component, "Backend");
    assert_eq!(id.name, "generate");
}

#[test]
fn static_endpoint_names() {
    let ns = Namespace::new("ns".to_string(), true);
    let e = ns.component("c".to_string()).endpoint("e".to_string());
    assert_eq!(e.etcd_path(0x1a), "instances/ns/c/e");
    assert_eq!(e.name_with_id(7), "e");
    assert_eq!(e.subject_to(7), "ns_c.e");
}

#[test]
fn slug_replaces_invalid_characters() {
    assert_eq!(slugify("My.Service name-1_x"), "my_service_name-1_x");
    assert_eq!(slugify(""), "");
}

#[test]
fn instance_id() {
    let i = Instance {
        component: "c".to_string(),
        endpoint: "e".to_string(),
        namespace: "n".to_string(),
        instance_id: 42,
        transport: TransportType::NatsTcp("x".to_string()),
    };
    assert_eq!(i.id(), 42);
}

#[test]
fn input_options() {
    assert_eq!(Input::parse("http"), Ok(Input::Http));
    assert_eq!(Input::parse("text"), Ok(Input::Text));
    assert_eq!(Input::parse("stdin"), Ok(Input::Stdin));
    assert_eq!(Input::parse("dyn://a.b.c"), Ok(Input::Endpoint("dyn://a.b.c".to_string())));
    assert_eq!(Input::parse("batch:prompts.jsonl"), Ok(Input::Batch("prompts.jsonl".to_string())));
    assert_eq!(Input::parse("htt"), Err(OptionError::InvalidIn("htt".to_string())));
    assert_eq!(Input::default_for(true), Input::Text);
    assert_eq!(Input::default_for(false), Input::Stdin);
    assert_eq!(Input::Batch("f".to_string()).name(), "f");
}

#[test]
fn output_options() {
    assert_eq!(Output::parse("vllm"), Ok(Output::Vllm));
    assert_eq!(Output::parse("llama_cpp"), Ok(Output::LlamaCpp));
    assert_eq!(Output::parse("llamacpp"), Ok(Output::LlamaCpp));
    assert_eq!(Output::parse("dyn"), Ok(Output::Dynamic));
    assert_eq!(Output::parse("dyn://x.y.z"), Ok(Output::Dynamic));
    assert_eq!(Output::parse("echo"), Err(OptionError::InvalidOut("echo".to_string())));
    assert_eq!(Output::EchoFull.name(), "echo_full");
    assert_eq!(Output::default(), Output::MistralRs);
    assert_eq!(
        Output::available_engines(),
        vec!["echo_core", "echo_full", "mistralrs", "llamacpp", "sglang", "trtllm", "vllm"]
    );
}

#[test]
fn local_model_card() {
    let mut m = LocalModel::with_name_only("Qwen");
    assert_eq!(m.display_name(), "Qwen");
    assert_eq!(m.service_name(), "Qwen");
    assert_eq!(m.path(), "");
    m.set_context_length(4096);
    m.set_kv_cache_block_size(16);
    assert_eq!(m.card().context_length, 4096);
    assert_eq!(m.card().kv_cache_block_size, 16);
    let d = LocalModel::default();
    assert_eq!(d.display_name(), "dynamo");
    let mut card = ModelDeploymentCard::with_name_only("a");
    card.set_name("b");
    assert_eq!(card.display_name, "b");
    assert_eq!(card.service_name, "b");
}

#[test]
fn repo_path_checks() {
    assert_eq!(check_valid_local_repo_path("/m", true, true), Ok(()));
    assert_eq!(
        check_valid_local_repo_path("/m", false, false),
        Err(RepoPathError::NotFound("/m".to_string()))
    );
    assert_eq!(
        check_valid_local_repo_path("/m", true, false),
        Err(RepoPathError::NotADirectory("/m".to_string()))
    );
}

use kv_router::component::validate_allowed_chars;
use kv_router::component::InvalidCharacters;
use kv_router::local_model::hf_relative_path;
use kv_router::local_model::is_hf_repo;
use kv_router::local_model::model_name_for;
use kv_router::opt::check_run_options;
use kv_router::opt::RunOptionError;
use kv_router::protocols::Endpoint as EndpointId;
use kv_router::subprocess::engine_args;
use kv_router::subprocess::pretty_cmd;
use kv_router::subprocess::EngineFlags;
use kv_router::subprocess::MultiNodeConfig;
use kv_router::text::decimal;
use kv_router::text::str_eq;

#[test]
fn allowed_name_characters() {
    for ok in ["abc", "abc123", "a-b-c", "a_b_c", "a-b_c-123", "a", "123456", "-", "_"] {
        assert_eq!(validate_allowed_chars(ok), Ok(()), "{ok}");
    }
    for bad in ["abc!", "foo.bar", "foo/bar", "abc def", "", "Abc", "a\n"] {
        assert_eq!(validate_allowed_chars(bad), Err(InvalidCharacters), "{bad}");
    }
}

#[test]
fn component_equality() {
    let ns = Namespace::new("n".to_string(), false);
    let a = ns.component("c".to_string());
    let b = Namespace::new("n".to_string(), false).component("c".to_string());
    let s = Namespace::new("n".to_string(), true).component("c".to_string());
    assert!(a == b);
    assert!(a != s);
    assert!(a.endpoint("e".to_string()) == b.endpoint("e".to_string()));
    assert!(a.endpoint("e".to_string()) != b.endpoint("f".to_string()));
}

#[test]
fn model_naming() {
    assert!(is_hf_repo("hf://Qwen/Qwen2.5", true));
    assert!(is_hf_repo("Qwen/Qwen2.5", false));
    assert!(!is_hf_repo("/data/llms/Qwen", true));
    assert_eq!(hf_relative_path("hf://hf://Qwen/Qwen2.5"), "Qwen/Qwen2.5");
    assert_eq!(hf_relative_path("Qwen/Qwen2.5"), "Qwen/Qwen2.5");
    assert_eq!(hf_relative_path("hf:/x"), "hf:/x");
    assert_eq!(
        model_name_for(true, "Qwen/Qwen2.5", None, None),
        Some("Qwen/Qwen2.5".to_string())
    );
    assert_eq!(
        model_name_for(false, "x", Some("Qwen2.5-3B".to_string()), None),
        Some("Qwen2.5-3B".to_string())
    );
    assert_eq!(model_name_for(false, "x", None, None), None);
    assert_eq!(
        model_name_for(false, "x", None, Some("mine".to_string())),
        Some("mine".to_string())
    );
}

#[test]
fn run_option_rules() {
    let ep = Input::Endpoint("dyn://a.b.c".to_string());
    assert_eq!(
        check_run_options(&ep, Output::Dynamic, false, false, 0, false, false, false),
        Err(RunOptionError::EndpointBothWays)
    );
    assert_eq!(
        check_run_options(&Input::Http, Output::Dynamic, true, false, 0, false, false, false),
        Err(RunOptionError::ContextLengthOnIngress)
    );
    assert_eq!(
        check_run_options(&Input::Http, Output::Dynamic, false, true, 0, false, false, false),
        Err(RunOptionError::KvBlockSizeOnIngress)
    );
    assert_eq!(
        check_run_options(&Input::Text, Output::EchoCore, false, false, 0, false, false, false),
        Err(RunOptionError::MissingTokenizer)
    );
    assert_eq!(
        check_run_options(&Input::Text, Output::SgLang, false, false, 0, true, false, true),
        Err(RunOptionError::NotARepoCheckout)
    );
    assert_eq!(
        check_run_options(&Input::Text, Output::Vllm, false, false, 1, true, true, false),
        Err(RunOptionError::BaseGpuIdUnsupported)
    );
    assert_eq!(
        check_run_options(&Input::Text, Output::Trtllm, false, false, 2, true, true, false),
        Err(RunOptionError::BaseGpuIdUnsupported)
    );
    assert_eq!(
        check_run_options(&Input::Text, Output::LlamaCpp, false, false, 0, true, true, false),
        Err(RunOptionError::NotAGgufFile)
    );
    assert_eq!(
        check_run_options(&Input::Http, Output::SgLang, false, false, 3, true, true, false),
        Ok(())
    );
    assert_eq!(
        check_run_options(&Input::Http, Output::EchoFull, true, true, 3, false, false, false),
        Ok(())
    );
}

#[test]
fn engine_command_line() {
    let mut model = LocalModel::with_name_only("Qwen");
    model.set_context_length(4096);
    model.set_kv_cache_block_size(16);
    let endpoint = EndpointId::parse("dyn://dynamo.internal.worker");
    let flags = EngineFlags { tensor_parallel_size: 2, base_gpu_id: 0, extra_engine_args: None };
    let args = engine_args("/tmp/s.py", &endpoint, &model, &flags, &None);
    assert_eq!(
        args,
        vec![
            "/tmp/s.py",
            "--endpoint",
            "dyn://dynamo.internal.worker",
            "--model-path",
            "",
            "--model-name",
            "Qwen",
            "--tensor-parallel-size",
            "2",
            "--kv-block-size",
            "16",
            "--context-length",
            "4096",
        ]
    );
    let flags = EngineFlags {
        tensor_parallel_size: 1,
        base_gpu_id: 3,
        extra_engine_args: Some("e.json".to_string()),
    };
    let nodes = Some(MultiNodeConfig {
        num_nodes: 2,
        node_rank: 1,
        leader_addr: "10.0.0.1:5000".to_string(),
    });
    let args = engine_args("s.py", &endpoint, &model, &flags, &nodes);
    assert_eq!(
        args[13..].to_vec(),
        vec![
            "--base-gpu-id",
            "3",
            "--nnodes",
            "2",
            "--node-rank",
            "1",
            "--dist-init-addr",
            "10.0.0.1:5000",
            "--extra-engine-args",
            "e.json",
        ]
    );
    assert_eq!(pretty_cmd("python3", &args[0..3].to_vec()), "python3 s.py --endpoint dyn://dynamo.internal.worker");
    assert_eq!(pretty_cmd("python3", &vec![]), "python3 ");
}

#[test]
fn decimal_and_equality_helpers() {
    assert_eq!(decimal(0), "0");
    assert_eq!(decimal(1234567890), "1234567890");
    assert_eq!(decimal(u64::MAX), "18446744073709551615");
    assert!(str_eq("abc", "abc"));
    assert!(!str_eq("abc", "abd"));
    assert!(!str_eq("abc", "ab"));
}
