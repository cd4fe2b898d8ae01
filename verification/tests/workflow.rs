//! Workflow compilation, the node runtime, retry policy, lanes and the
//! extension wire protocol.

use relay_core::error::ProtocolEngineError;
use relay_core::json::JsonValue;
use relay_core::workflow::compiler::{CompileContext, CompileError, compile_workflow};
use relay_core::workflow::context::{LaneEntry, LaneRegistry};
use relay_core::workflow::error::{ExtensionError, NodeError, WorkflowError};
use relay_core::workflow::execution::{EdgeCondition, ExecutionPlan};
use relay_core::workflow::extension::{
    ExtensionResponse, UnixSocketExecutor, encode_frame, interpret_response, response_frame_length,
};
use relay_core::workflow::nodes::{NodeInput, NodeOutput, RuntimeValue};
use relay_core::workflow::condition::{ConditionEval, condition_output, evaluate_condition};
use relay_core::workflow::fallback::{FallbackAction, FallbackRun, LanePool};
use relay_core::workflow::llm::{build_http_request, prepare_call};
use relay_core::canonical::Protocol;
use relay_core::workflow::retry::{RetryAction, RetryRun, is_timeout_error, should_retry};
use relay_core::workflow::runner::{build_snapshot, compile_workflow_with_lanes};
use relay_core::workflow::snapshot::{RuntimeSnapshot, RuntimeSnapshotBuilder};
use relay_core::workflow::transform::{execute as transform_execute, transform_value};
use relay_core::workflow::runtime::{NodeRuntime, RunStep};
use relay_core::workflow::schema::{
    ConditionConfig, ConditionOp, Edge, EdgeConditionDef, FallbackConfig, FallbackProvider, FallbackStrategy, LlmConfig, Node,
    NodeConfig, NodeKind, PortDef, PortType, RetryConfig, TransformConfig, TransformOperation, Workflow,
};
use std::sync::Arc;

fn lane(id: &str, url: &str) -> LaneEntry {
    LaneEntry {
        id: id.into(),
        base_url: url.into(),
        authorization: None,
        egress: "direct".into(),
        proxy_url: None,
    }
}

fn test_lane_registry() -> Arc<LaneRegistry> {
    let mut registry = LaneRegistry::new();
    registry.register(lane("test-lane", "http://127.0.0.1:9000"));
    Arc::new(registry)
}

fn port(name: &str) -> PortDef {
    PortDef {
        name: name.into(),
        port_type: PortType::Message,
    }
}

fn input_node(id: &str) -> Node {
    Node {
        id: id.into(),
        kind: NodeKind::Input,
        config: NodeConfig::Input,
        inputs: vec![],
        outputs: vec![port("out")],
    }
}

fn output_node(id: &str) -> Node {
    Node {
        id: id.into(),
        kind: NodeKind::Output,
        config: NodeConfig::Output,
        inputs: vec![port("in")],
        outputs: vec![],
    }
}

fn llm_config(lane_id: Option<&str>) -> LlmConfig {
    LlmConfig {
        protocol: None,
        model: Some("gpt-4".into()),
        temperature: None,
        max_tokens: None,
        stream: true,
        lane_id: lane_id.map(|s| s.into()),
    }
}

fn llm_node(id: &str, lane_id: Option<&str>) -> Node {
    Node {
        id: id.into(),
        kind: NodeKind::Llm,
        config: NodeConfig::Llm(llm_config(lane_id)),
        inputs: vec![port("in")],
        outputs: vec![port("out")],
    }
}

fn condition_node(id: &str) -> Node {
    Node {
        id: id.into(),
        kind: NodeKind::Condition,
        config: NodeConfig::Condition(ConditionConfig {
            field: "ok".into(),
            operator: ConditionOp::Equal,
            value: JsonValue::Bool(true),
        }),
        inputs: vec![port("in")],
        outputs: vec![port("true"), port("false")],
    }
}

fn simple_edge(source: &str, target: &str) -> Edge {
    Edge {
        source_node: source.into(),
        source_port: "out".into(),
        target_node: target.into(),
        target_port: "in".into(),
        condition: None,
    }
}

fn workflow(id: &str, nodes: Vec<Node>, edges: Vec<Edge>) -> Workflow {
    Workflow {
        id: id.into(),
        name: id.into(),
        version: 1,
        nodes,
        edges,
    }
}

// ─── Compilation ────────────────────────────────────────────────────────────

#[test]
fn compile_rejects_unknown_lane() {
    let wf = workflow(
        "wf2",
        vec![input_node("in"), llm_node("llm1", Some("nonexistent")), output_node("out")],
        vec![simple_edge("in", "llm1"), simple_edge("llm1", "out")],
    );
    let ctx = CompileContext {
        lanes: test_lane_registry(),
    };
    let result = compile_workflow(&wf, &ctx);
    match result {
        Ok(_) => panic!("expected LaneNotFound"),
        Err(CompileError::LaneNotFound(id)) => assert_eq!(id, "nonexistent"),
        Err(other) => panic!("unexpected error: {}", other.to_string()),
    }
}

#[test]
fn lane_less_llm_with_no_lanes_is_rejected() {
    let wf = workflow(
        "wf-none",
        vec![input_node("in"), llm_node("llm1", None), output_node("out")],
        vec![simple_edge("in", "llm1"), simple_edge("llm1", "out")],
    );
    let ctx = CompileContext {
        lanes: Arc::new(LaneRegistry::new()),
    };
    let result = compile_workflow(&wf, &ctx);
    assert!(result.is_err(), "lane-less LLM with no lanes must fail to compile");
}

#[test]
fn lane_less_llm_with_multiple_lanes_is_rejected() {
    let mut two_lanes = LaneRegistry::new();
    two_lanes.register(lane("a", "http://127.0.0.1:9001"));
    two_lanes.register(lane("b", "http://127.0.0.1:9002"));

    let wf = workflow(
        "wf-two",
        vec![input_node("in"), llm_node("llm1", None), output_node("out")],
        vec![simple_edge("in", "llm1"), simple_edge("llm1", "out")],
    );
    let ctx = CompileContext {
        lanes: Arc::new(two_lanes),
    };
    let result = compile_workflow(&wf, &ctx);
    assert!(result.is_err(), "lane-less LLM with multiple lanes must fail to compile");
}

#[test]
fn compile_orders_nodes_topologically() {
    // Nodes listed out of order; edges force in → llm1 → out.
    let wf = workflow(
        "wf1",
        vec![output_node("out"), llm_node("llm1", Some("test-lane")), input_node("in")],
        vec![simple_edge("in", "llm1"), simple_edge("llm1", "out")],
    );
    let ctx = CompileContext {
        lanes: test_lane_registry(),
    };
    let plan = match compile_workflow(&wf, &ctx) {
        Ok(p) => p,
        Err(e) => panic!("compile failed: {}", e.to_string()),
    };
    let ids: Vec<&str> = plan.nodes.iter().map(|n| n.id.as_str()).collect();
    assert_eq!(ids, vec!["in", "llm1", "out"]);
    assert_eq!(plan.index_of("llm1"), Some(1));
    assert_eq!(plan.index_of("missing"), None);
    assert_eq!(plan.nodes[1].upstream, vec!["in".to_string()]);
    assert_eq!(plan.nodes[1].downstream, vec!["out".to_string()]);
    assert_eq!(plan.edges.len(), 2);
    assert_eq!(plan.edges_from("llm1"), vec![1]);
    assert!(plan.get_node("out").is_some());
}

#[test]
fn compile_rejects_cycle() {
    let wf = workflow(
        "cyclic",
        vec![input_node("a"), llm_node("b", Some("test-lane")), llm_node("c", Some("test-lane"))],
        vec![simple_edge("a", "b"), simple_edge("b", "c"), simple_edge("c", "b")],
    );
    let ctx = CompileContext {
        lanes: test_lane_registry(),
    };
    match compile_workflow(&wf, &ctx) {
        Err(CompileError::Workflow(WorkflowError::Validation(m))) => assert_eq!(m, "workflow contains a cycle"),
        Err(other) => panic!("unexpected error: {}", other.to_string()),
        Ok(_) => panic!("a cycle must not compile"),
    }
}

#[test]
fn compile_rejects_dangling_edge() {
    let wf = workflow("dangling", vec![input_node("in")], vec![simple_edge("in", "nowhere")]);
    let ctx = CompileContext {
        lanes: test_lane_registry(),
    };
    match compile_workflow(&wf, &ctx) {
        Err(CompileError::Schema(m)) => assert_eq!(m, "workflow has duplicate node ids or edges to unknown nodes"),
        _ => panic!("expected a schema error"),
    }
}

#[test]
fn fallback_with_missing_lane_is_rejected() {
    let fallback = Node {
        id: "fb".into(),
        kind: NodeKind::Fallback,
        config: NodeConfig::Fallback(FallbackConfig {
            providers: vec![
                FallbackProvider { lane_id: "test-lane".into(), model: "m".into(), protocol: None },
                FallbackProvider { lane_id: "gone".into(), model: "m".into(), protocol: None },
            ],
            strategy: FallbackStrategy::Sequential,
            rounds: 1,
            retry_on: vec![429],
        }),
        inputs: vec![port("in")],
        outputs: vec![port("out")],
    };
    let wf = workflow("fb", vec![input_node("in"), fallback, output_node("out")], vec![simple_edge("in", "fb"), simple_edge("fb", "out")]);
    let ctx = CompileContext {
        lanes: test_lane_registry(),
    };
    match compile_workflow(&wf, &ctx) {
        Err(CompileError::LaneNotFound(id)) => assert_eq!(id, "gone"),
        _ => panic!("expected LaneNotFound"),
    }
}

#[test]
fn condition_edges_get_port_conditions() {
    let mut e_true = simple_edge("cond", "out");
    e_true.source_port = "true".into();
    let wf = workflow(
        "cond",
        vec![input_node("in"), condition_node("cond"), output_node("out")],
        vec![simple_edge("in", "cond"), e_true],
    );
    let plan = ExecutionPlan::compile(&wf).unwrap_or_else(|_| panic!("compile failed"));
    assert!(plan.edges[0].condition.is_none());
    match &plan.edges[1].condition {
        Some(EdgeCondition::PortEquals { port, value }) => {
            assert_eq!(port, "true");
            assert!(matches!(value, JsonValue::Bool(true)));
        }
        _ => panic!("expected a port condition"),
    }
}

#[test]
fn compile_error_to_workflow_error() {
    let e = CompileError::LaneNotFound("x".into()).into_workflow_error();
    match e {
        WorkflowError::Validation(m) => assert_eq!(m, "lane 'x' not found in registry"),
        _ => panic!("expected validation error"),
    }
    assert_eq!(CompileError::Schema("bad".into()).to_string(), "schema validation failed: bad");
}

// ─── Runtime ────────────────────────────────────────────────────────────────

fn run_echo(plan: ExecutionPlan, input: RuntimeValue) -> Result<NodeOutput, WorkflowError> {
    // Every node passes its input through; a condition node answers on its
    // `true` port.
    let runtime = NodeRuntime::new(plan);
    let mut state = runtime.start(NodeInput::message(input));
    loop {
        match runtime.next_step(&mut state) {
            RunStep::Finished(r) => return r,
            RunStep::Execute { node, input } => {
                let kind = runtime.plan().nodes[node].kind;
                let output = if kind == NodeKind::Condition {
                    NodeOutput::on_port("true", RuntimeValue::Bool(true))
                } else {
                    NodeOutput::message(input.value)
                };
                runtime.record_output(&mut state, node, output);
            }
        }
    }
}

#[test]
fn runtime_passes_input_to_output() {
    let wf = workflow(
        "echo",
        vec![input_node("in"), llm_node("llm1", Some("test-lane")), output_node("out")],
        vec![simple_edge("in", "llm1"), simple_edge("llm1", "out")],
    );
    let plan = ExecutionPlan::compile(&wf).unwrap_or_else(|_| panic!("compile failed"));
    let out = run_echo(plan, RuntimeValue::String("hello".into())).unwrap_or_else(|e| panic!("{}", e.to_string()));
    assert!(out.port.is_none());
    assert!(matches!(out.value, RuntimeValue::String(ref s) if s == "hello"));
}

#[test]
fn runtime_skips_inactive_branch() {
    let mut e_false = simple_edge("cond", "out");
    e_false.source_port = "false".into();
    let wf = workflow(
        "branch",
        vec![input_node("in"), condition_node("cond"), output_node("out")],
        vec![simple_edge("in", "cond"), e_false],
    );
    let plan = ExecutionPlan::compile(&wf).unwrap_or_else(|_| panic!("compile failed"));
    match run_echo(plan, RuntimeValue::Null) {
        Err(WorkflowError::Validation(m)) => assert_eq!(m, "output node was skipped due to inactive conditional edges"),
        _ => panic!("expected the output to be skipped"),
    }
}

#[test]
fn runtime_without_output_node() {
    let wf = workflow("none", vec![input_node("in")], vec![]);
    let plan = ExecutionPlan::compile(&wf).unwrap_or_else(|_| panic!("compile failed"));
    match run_echo(plan, RuntimeValue::Null) {
        Err(WorkflowError::Validation(m)) => assert_eq!(m, "no output node in workflow"),
        _ => panic!("expected no output node"),
    }
}

#[test]
fn runtime_merges_several_upstream_values() {
    let wf = workflow(
        "merge",
        vec![input_node("a"), input_node("b"), output_node("out")],
        vec![simple_edge("a", "out"), simple_edge("b", "out")],
    );
    let plan = ExecutionPlan::compile(&wf).unwrap_or_else(|_| panic!("compile failed"));
    let out = run_echo(plan, RuntimeValue::Integer(7)).unwrap_or_else(|e| panic!("{}", e.to_string()));
    match out.value {
        RuntimeValue::Json(j) => assert_eq!(j.to_json_string(), "[7,7]"),
        _ => panic!("expected an array"),
    }
}

#[test]
fn runtime_error_names_node() {
    let wf = workflow("err", vec![input_node("in")], vec![]);
    let plan = ExecutionPlan::compile(&wf).unwrap_or_else(|_| panic!("compile failed"));
    let runtime = NodeRuntime::new(plan);
    let e = runtime.record_error(0, NodeError::Internal("boom".into()));
    assert_eq!(e.to_string(), "runtime execution error in node 'in': internal error: boom");
}

// ─── Values and conditions ──────────────────────────────────────────────────

#[test]
fn runtime_value_json_conversions() {
    let n = RuntimeValue::from_json(JsonValue::Number("42".into()));
    assert!(matches!(n, RuntimeValue::Integer(42)));
    let f = RuntimeValue::from_json(JsonValue::Number("1.5".into()));
    assert!(matches!(f, RuntimeValue::Number(ref t) if t == "1.5"));
    let neg = RuntimeValue::from_json(JsonValue::Number("-9223372036854775808".into()));
    assert!(matches!(neg, RuntimeValue::Integer(i64::MIN)));
    assert_eq!(RuntimeValue::Integer(-12).to_json().to_json_string(), "-12");
    let m = RuntimeValue::Message { role: "user".into(), content: "hi".into() };
    assert_eq!(m.to_json().to_json_string(), "{\"content\":\"hi\",\"role\":\"user\"}");
    assert_eq!(RuntimeValue::String("yes".into()).as_bool(), Some(true));
    assert_eq!(RuntimeValue::String("".into()).as_bool(), Some(false));
    assert_eq!(RuntimeValue::String("maybe".into()).as_bool(), None);
    assert_eq!(RuntimeValue::Number("0.0".into()).as_bool(), Some(false));
    assert_eq!(RuntimeValue::Number("0.5".into()).as_bool(), Some(true));
    assert_eq!(RuntimeValue::Null.as_bool(), Some(false));
}

#[test]
fn get_field_follows_dotted_path() {
    let v = RuntimeValue::Json(JsonValue::Object(vec![(
        "a".into(),
        JsonValue::Object(vec![("b".into(), JsonValue::Number("3".into()))]),
    )]));
    assert!(matches!(v.get_field("a.b"), Some(RuntimeValue::Integer(3))));
    assert!(v.get_field("a.c").is_none());
    assert!(v.get_field("").is_none());
}

#[test]
fn edge_conditions_evaluate() {
    let v = RuntimeValue::Json(JsonValue::Object(vec![("ok".into(), JsonValue::Bool(true))]));
    let field = EdgeCondition::FieldEquals { field: "ok".into(), value: JsonValue::Bool(true) };
    assert!(field.evaluate(None, &v));
    let port_true = EdgeCondition::PortEquals { port: "true".into(), value: JsonValue::Bool(true) };
    assert!(port_true.evaluate(Some("true"), &v));
    assert!(!port_true.evaluate(Some("false"), &v));
    let port_not = EdgeCondition::PortEquals { port: "true".into(), value: JsonValue::Bool(false) };
    assert!(port_not.evaluate(Some("false"), &v));
}

// ─── Retry policy ───────────────────────────────────────────────────────────

fn cfg(on_provider: bool) -> RetryConfig {
    RetryConfig {
        max_attempts: 3,
        delay_ms: 0,
        on_timeout: true,
        on_provider_error: on_provider,
        retry_on: vec![429],
        target: llm_config(Some("real-lane")),
    }
}

#[test]
fn provider_error_retried_when_policy_allows() {
    let config = cfg(true);
    let err = NodeError::Provider(ProtocolEngineError::ProviderError {
        message: "upstream 500".into(),
        status: None,
    });
    assert!(should_retry(&config, &err));
}

#[test]
fn provider_error_not_retried_when_policy_denies() {
    let config = cfg(false);
    let err = NodeError::Provider(ProtocolEngineError::ProviderError {
        message: "upstream 500".into(),
        status: None,
    });
    assert!(!should_retry(&config, &err));
}

#[test]
fn internal_error_never_retried() {
    let config = cfg(true);
    let err = NodeError::Internal("boom".into());
    assert!(!should_retry(&config, &err));
}

#[test]
fn timeout_retried_when_policy_allows() {
    let config = cfg(false);
    let err = NodeError::Provider(ProtocolEngineError::ProviderError {
        message: "upstream request failed: request timed out".into(),
        status: None,
    });
    assert!(should_retry(&config, &err));
}

#[test]
fn timeout_not_retried_when_policy_denies() {
    let config = RetryConfig {
        on_timeout: false,
        ..cfg(false)
    };
    let err = NodeError::Provider(ProtocolEngineError::ProviderError {
        message: "upstream request failed: request timed out".into(),
        status: None,
    });
    assert!(!should_retry(&config, &err));
}

#[test]
fn provider_error_retried_via_provider_policy_even_for_timeout() {
    let config = RetryConfig {
        on_timeout: false,
        ..cfg(true)
    };
    let err = NodeError::Provider(ProtocolEngineError::ProviderError {
        message: "upstream request failed: request timed out".into(),
        status: None,
    });
    assert!(should_retry(&config, &err));
}

#[test]
fn retry_on_status_triggers_retry_even_when_policy_denies() {
    let config = RetryConfig {
        on_timeout: false,
        on_provider_error: false,
        ..cfg(false)
    };
    let err = NodeError::Provider(ProtocolEngineError::ProviderError {
        message: "upstream 429".into(),
        status: Some(429),
    });
    assert!(should_retry(&config, &err));
}

#[test]
fn non_retryable_status_not_retried() {
    let config = RetryConfig {
        on_timeout: false,
        on_provider_error: false,
        ..cfg(false)
    };
    let err = NodeError::Provider(ProtocolEngineError::ProviderError {
        message: "upstream 403".into(),
        status: Some(403),
    });
    assert!(!should_retry(&config, &err));
}

#[test]
fn input_mismatch_never_retried() {
    let config = cfg(true);
    let err = NodeError::InputMismatch {
        expected: "x".into(),
        got: "y".into(),
    };
    assert!(!should_retry(&config, &err));
}

#[test]
fn target_lane_is_preserved_in_config() {
    let config = cfg(true);
    assert_eq!(config.target.lane_id.as_deref(), Some("real-lane"));
}

#[test]
fn timeout_detection_is_case_insensitive() {
    assert!(is_timeout_error(&ProtocolEngineError::ProviderError { message: "Gateway TIMEOUT".into(), status: None }));
    assert!(!is_timeout_error(&ProtocolEngineError::ProviderError { message: "refused".into(), status: None }));
    assert!(!is_timeout_error(&ProtocolEngineError::Internal("timeout".into())));
}

// ─── Lanes ──────────────────────────────────────────────────────────────────

#[test]
fn lane_registry_register_replaces() {
    let mut r = LaneRegistry::new();
    assert!(r.is_empty());
    r.register(lane("a", "http://one"));
    r.register(lane("a", "http://two"));
    r.register(lane("b", "http://three"));
    assert_eq!(r.len(), 2);
    assert_eq!(r.get("a").map(|e| e.base_url.as_str()), Some("http://two"));
    assert!(r.get("c").is_none());
    assert_eq!(r.entries().len(), 2);
}

// ─── Extension wire protocol ────────────────────────────────────────────────

#[test]
fn frames_carry_big_endian_length() {
    let frame = encode_frame(b"abc").unwrap_or_else(|_| panic!("frame"));
    assert_eq!(frame, vec![0, 0, 0, 3, b'a', b'b', b'c']);
    assert_eq!(response_frame_length(&[0, 0, 1, 0], "/tmp/w.sock").ok(), Some(256));
    match response_frame_length(&[5, 0, 0, 0], "/tmp/w.sock") {
        Err(NodeError::Extension(ExtensionError::Execution(m))) => {
            assert_eq!(m, "extension worker at '/tmp/w.sock' returned an oversized frame (83886080 bytes)")
        }
        _ => panic!("expected an oversized frame"),
    }
}

#[test]
fn worker_responses_are_interpreted() {
    let ok = ExtensionResponse { ok: true, port: Some("out".into()), value: Some(JsonValue::String("hi".into())), error: None };
    let out = interpret_response(ok, "/w").unwrap_or_else(|_| panic!("ok response"));
    assert_eq!(out.port.as_deref(), Some("out"));
    assert!(matches!(out.value, RuntimeValue::String(ref s) if s == "hi"));
    let failed = ExtensionResponse { ok: false, port: None, value: None, error: Some("worker exploded".into()) };
    match interpret_response(failed, "/w") {
        Err(NodeError::Extension(ExtensionError::Execution(m))) => assert_eq!(m, "extension worker at '/w' failed: worker exploded"),
        _ => panic!("expected an execution error"),
    }
    let unknown = ExtensionResponse { ok: false, port: None, value: None, error: None };
    match interpret_response(unknown, "/w") {
        Err(NodeError::Extension(ExtensionError::Execution(m))) => assert_eq!(m, "extension worker at '/w' failed: unknown error"),
        _ => panic!("expected an execution error"),
    }
}

#[test]
fn unix_socket_executor_settings() {
    let exec = UnixSocketExecutor::new(std::path::PathBuf::from("/tmp/worker.sock"));
    assert_eq!(exec.socket_path(), std::path::Path::new("/tmp/worker.sock"));
    assert_eq!(exec.timeout(), std::time::Duration::from_secs(30));
    let exec = exec.with_timeout(std::time::Duration::from_secs(5));
    assert_eq!(exec.timeout(), std::time::Duration::from_secs(5));
}

#[test]
fn edge_condition_definitions_become_field_conditions() {
    let mut e = simple_edge("in", "out");
    e.condition = Some(EdgeConditionDef { field: "a".into(), value: JsonValue::Number("1".into()) });
    let wf = workflow("c", vec![input_node("in"), output_node("out")], vec![e]);
    let plan = ExecutionPlan::compile(&wf).unwrap_or_else(|_| panic!("compile failed"));
    assert!(matches!(&plan.edges[0].condition, Some(EdgeCondition::FieldEquals { field, .. }) if field == "a"));
}

// ─── Snapshots ──────────────────────────────────────────────────────────────

fn in_out_plan(id: &str) -> ExecutionPlan {
    let wf = workflow(id, vec![input_node("in"), output_node("out")], vec![simple_edge("in", "out")]);
    match ExecutionPlan::compile(&wf) {
        Ok(p) => p,
        Err(e) => panic!("plan compile failed: {}", e.to_string()),
    }
}

#[test]
fn snapshot_empty_initially() {
    let snapshot = RuntimeSnapshot::empty(1);
    assert_eq!(snapshot.version(), 1);
    assert!(snapshot.get_plan("missing").is_none());
    assert_eq!(snapshot.plan_count(), 0);
}

#[test]
fn builder_populates_snapshot() {
    let plan = in_out_plan("wf1");
    let snapshot = RuntimeSnapshotBuilder::new(42).with_plan("wf1".into(), plan).build();
    assert_eq!(snapshot.version(), 42);
    assert!(snapshot.get_plan("wf1").is_some());
    assert_eq!(snapshot.plan_count(), 1);
}

#[test]
fn builder_replaces_plan_and_sets_version() {
    let snapshot = RuntimeSnapshotBuilder::new(3)
        .with_plan("a".into(), in_out_plan("a"))
        .with_plan_version("a".into(), 7)
        .with_plan("b".into(), in_out_plan("b"))
        .with_plan_version("missing".into(), 9)
        .build();
    assert_eq!(snapshot.plan_count(), 2);
    assert_eq!(snapshot.workflow_version_for("a"), Some(7));
    assert_eq!(snapshot.workflow_version_for("b"), Some(0));
    assert_eq!(snapshot.workflow_version_for("missing"), None);
    assert_eq!(snapshot.workflow_ids(), vec!["a".to_string(), "b".to_string()]);
    let again = RuntimeSnapshotBuilder::new(3)
        .with_plan("a".into(), in_out_plan("a"))
        .with_plan_version("a".into(), 7)
        .with_plan("a".into(), in_out_plan("a"))
        .build();
    assert_eq!(again.plan_count(), 1);
    assert_eq!(again.workflow_version_for("a"), Some(0));
}

#[test]
fn build_snapshot_skips_bad_lane_urls() {
    let lanes = vec![
        ("good".to_string(), "http://127.0.0.1:9000".to_string()),
        ("bad".to_string(), "not a url".to_string()),
    ];
    let snapshot = build_snapshot("wf", in_out_plan("wf"), &lanes);
    assert_eq!(snapshot.version(), 1);
    assert_eq!(snapshot.plan_count(), 1);
    assert!(snapshot.lanes().get("good").is_some());
    assert!(snapshot.lanes().get("bad").is_none());
}

#[test]
fn compile_with_lanes_reports_bad_url() {
    let wf = workflow(
        "wf",
        vec![input_node("in"), llm_node("llm1", Some("l1")), output_node("out")],
        vec![simple_edge("in", "llm1"), simple_edge("llm1", "out")],
    );
    let lanes = vec![("l1".to_string(), "not a url".to_string())];
    match compile_workflow_with_lanes(&wf, &lanes) {
        Err(WorkflowError::NodeConfig(m)) => assert_eq!(m, "lane 'l1' has invalid base_url: relative URL without a base"),
        other => panic!("unexpected: {:?}", other.map(|_| ())),
    }
    let good = vec![("l1".to_string(), "http://127.0.0.1:9000".to_string())];
    assert!(compile_workflow_with_lanes(&wf, &good).is_ok());
    let other = vec![("l2".to_string(), "http://127.0.0.1:9000".to_string())];
    match compile_workflow_with_lanes(&wf, &other) {
        Err(WorkflowError::Validation(m)) => assert_eq!(m, "lane 'l1' not found in registry"),
        other => panic!("unexpected: {:?}", other.map(|_| ())),
    }
}

// ─── Transform nodes ────────────────────────────────────────────────────────

fn obj(entries: Vec<(&str, JsonValue)>) -> JsonValue {
    JsonValue::Object(entries.into_iter().map(|(k, v)| (k.to_string(), v)).collect())
}

fn s(text: &str) -> JsonValue {
    JsonValue::String(text.into())
}

#[test]
fn transform_extracts_named_field() {
    let v = RuntimeValue::Json(obj(vec![("answer", JsonValue::Number("42".into())), ("field", s("answer"))]));
    assert_eq!(transform_value(TransformOperation::Extract, v), RuntimeValue::Integer(42));
    let missing = RuntimeValue::Json(obj(vec![("field", s("nothing"))]));
    assert_eq!(transform_value(TransformOperation::Extract, missing), RuntimeValue::Null);
    let no_field = RuntimeValue::Json(obj(vec![("a", s("x"))]));
    assert_eq!(transform_value(TransformOperation::Extract, no_field.clone()), no_field);
    assert_eq!(transform_value(TransformOperation::Extract, RuntimeValue::Bool(true)), RuntimeValue::Bool(true));
}

#[test]
fn transform_merges_objects_later_wins() {
    let v = RuntimeValue::Json(JsonValue::Array(vec![
        obj(vec![("a", s("1")), ("c", s("3"))]),
        s("skipped"),
        obj(vec![("b", s("2")), ("a", s("one"))]),
    ]));
    let merged = transform_value(TransformOperation::Merge, v);
    assert_eq!(merged, RuntimeValue::Json(obj(vec![("a", s("one")), ("b", s("2")), ("c", s("3"))])));
    assert_eq!(transform_value(TransformOperation::Merge, RuntimeValue::Integer(1)), RuntimeValue::Integer(1));
}

#[test]
fn transform_filters_null_and_empty_items() {
    let v = RuntimeValue::Json(JsonValue::Array(vec![JsonValue::Null, s(""), s("x"), JsonValue::Bool(false)]));
    let out = transform_execute(&TransformConfig { operation: TransformOperation::Filter }, NodeInput::message(v)).unwrap();
    assert_eq!(out.port, None);
    assert_eq!(out.value, RuntimeValue::Json(JsonValue::Array(vec![s("x"), JsonValue::Bool(false)])));
}

#[test]
fn transform_passthrough_keeps_value() {
    let v = RuntimeValue::String("hi".into());
    assert_eq!(transform_value(TransformOperation::Passthrough, v.clone()), v);
}

// ─── Condition nodes ────────────────────────────────────────────────────────

fn cond(field: &str, operator: ConditionOp, value: JsonValue) -> ConditionConfig {
    ConditionConfig { field: field.into(), operator, value }
}

#[test]
fn condition_compares_integers_and_text() {
    let input = RuntimeValue::Json(obj(vec![("n", JsonValue::Number("5".into())), ("t", s("hello world"))]));
    let eq = evaluate_condition(&cond("n", ConditionOp::Equal, JsonValue::Number("5".into())), &input);
    assert!(matches!(eq, ConditionEval::Decided(true)));
    let ne = evaluate_condition(&cond("n", ConditionOp::NotEqual, JsonValue::Number("5".into())), &input);
    assert!(matches!(ne, ConditionEval::Decided(false)));
    let contains = evaluate_condition(&cond("t", ConditionOp::Contains, s("world")), &input);
    assert!(matches!(contains, ConditionEval::Decided(true)));
    let not_contains = evaluate_condition(&cond("t", ConditionOp::NotContains, s("world")), &input);
    assert!(matches!(not_contains, ConditionEval::Decided(false)));
    let eq_text = evaluate_condition(&cond("t", ConditionOp::Equal, s("hello world")), &input);
    assert!(matches!(eq_text, ConditionEval::Decided(true)));
}

#[test]
fn condition_on_missing_field() {
    let input = RuntimeValue::Json(obj(vec![]));
    assert!(matches!(
        evaluate_condition(&cond("gone", ConditionOp::IsEmpty, JsonValue::Null), &input),
        ConditionEval::Decided(true)
    ));
    assert!(matches!(
        evaluate_condition(&cond("gone", ConditionOp::IsNotEmpty, JsonValue::Null), &input),
        ConditionEval::Decided(false)
    ));
    assert!(matches!(
        evaluate_condition(&cond("gone", ConditionOp::Equal, JsonValue::Null), &input),
        ConditionEval::Decided(false)
    ));
}

#[test]
fn condition_hands_over_float_comparisons() {
    let input = RuntimeValue::Json(obj(vec![("x", JsonValue::Number("1.5".into())), ("i", JsonValue::Number("3".into()))]));
    match evaluate_condition(&cond("x", ConditionOp::Equal, JsonValue::Number("1.50".into())), &input) {
        ConditionEval::NumbersEqual { left, right, negate } => {
            assert_eq!(left, "1.5");
            assert_eq!(right, "1.50");
            assert!(!negate);
        }
        other => panic!("unexpected {:?}", other),
    }
    match evaluate_condition(&cond("i", ConditionOp::GreaterThan, s("not a number")), &input) {
        ConditionEval::Ordered { left, right, greater } => {
            assert_eq!(left, "3");
            assert_eq!(right, "0");
            assert!(greater);
        }
        other => panic!("unexpected {:?}", other),
    }
    match evaluate_condition(&cond("x", ConditionOp::LessThan, JsonValue::Number("2".into())), &input) {
        ConditionEval::Ordered { left, right, greater } => {
            assert_eq!(left, "1.5");
            assert_eq!(right, "2");
            assert!(!greater);
        }
        other => panic!("unexpected {:?}", other),
    }
}

#[test]
fn condition_output_uses_named_port() {
    let out = condition_output(true).unwrap();
    assert_eq!(out.port.as_deref(), Some("true"));
    assert_eq!(out.value, RuntimeValue::Bool(true));
    let out = condition_output(false).unwrap();
    assert_eq!(out.port.as_deref(), Some("false"));
}

// ─── Fallback nodes ─────────────────────────────────────────────────────────

fn provider(lane: &str) -> FallbackProvider {
    FallbackProvider { lane_id: lane.into(), model: format!("model-{lane}"), protocol: None }
}

fn fallback(lanes: &[&str], strategy: FallbackStrategy, rounds: u32) -> FallbackConfig {
    FallbackConfig { providers: lanes.iter().map(|l| provider(l)).collect(), strategy, rounds, retry_on: vec![429] }
}

fn two_lanes() -> LaneRegistry {
    let mut r = LaneRegistry::new();
    r.register(lane("a", "http://a"));
    r.register(lane("b", "http://b"));
    r
}

fn failure(msg: &str) -> Result<NodeOutput, NodeError> {
    Err(NodeError::Provider(ProtocolEngineError::ProviderError { message: msg.into(), status: None }))
}

#[test]
fn fallback_without_providers_fails() {
    match FallbackRun::start(&fallback(&[], FallbackStrategy::Sequential, 1), 0) {
        Err(NodeError::Internal(m)) => assert_eq!(m, "fallback: no providers"),
        _ => panic!("expected an error"),
    }
}

#[test]
fn fallback_moves_to_next_provider_on_failure() {
    let config = fallback(&["a", "b"], FallbackStrategy::Sequential, 1);
    let lanes = two_lanes();
    let mut run = FallbackRun::start(&config, 0).unwrap();
    match run.next(&config, &lanes) {
        FallbackAction::CheckPool(l) => assert_eq!(l, "a"),
        other => panic!("unexpected {:?}", other),
    }
    match run.on_pool(&config, &lanes, LanePool::Available) {
        FallbackAction::Call(c) => {
            assert_eq!(c.lane_id.as_deref(), Some("a"));
            assert_eq!(c.model.as_deref(), Some("model-a"));
            assert!(!c.stream);
        }
        other => panic!("unexpected {:?}", other),
    }
    match run.on_outcome(&config, &lanes, failure("boom")) {
        FallbackAction::CheckPool(l) => assert_eq!(l, "b"),
        other => panic!("unexpected {:?}", other),
    }
    assert!(matches!(run.on_pool(&config, &lanes, LanePool::Available), FallbackAction::Call(_)));
    let answer = NodeOutput::message(RuntimeValue::String("ok".into()));
    match run.on_outcome(&config, &lanes, Ok(answer)) {
        FallbackAction::Finish(Ok(o)) => assert_eq!(o.value, RuntimeValue::String("ok".into())),
        other => panic!("unexpected {:?}", other),
    }
}

#[test]
fn fallback_reports_last_failure_after_all_rounds() {
    let config = fallback(&["a", "b"], FallbackStrategy::Sequential, 2);
    let lanes = two_lanes();
    let mut run = FallbackRun::start(&config, 0).unwrap();
    let mut calls = 0;
    let mut action = run.next(&config, &lanes);
    loop {
        action = match action {
            FallbackAction::CheckPool(_) => run.on_pool(&config, &lanes, LanePool::Available),
            FallbackAction::Call(_) => {
                calls += 1;
                run.on_outcome(&config, &lanes, failure(&format!("fail {calls}")))
            }
            FallbackAction::Finish(r) => {
                match r {
                    Err(NodeError::Provider(ProtocolEngineError::ProviderError { message, .. })) => assert_eq!(message, "fail 4"),
                    _ => panic!("expected the last failure"),
                }
                break;
            }
        };
    }
    assert_eq!(calls, 4);
}

#[test]
fn fallback_skips_missing_lanes_and_unavailable_clients() {
    let config = fallback(&["gone", "a"], FallbackStrategy::Sequential, 1);
    let lanes = two_lanes();
    let mut run = FallbackRun::start(&config, 0).unwrap();
    match run.next(&config, &lanes) {
        FallbackAction::CheckPool(l) => assert_eq!(l, "a"),
        other => panic!("unexpected {:?}", other),
    }
    match run.on_pool(&config, &lanes, LanePool::Unavailable) {
        FallbackAction::Finish(Err(NodeError::Internal(m))) => {
            assert_eq!(m, "fallback: no provider could be attempted (missing lanes or client)")
        }
        other => panic!("unexpected {:?}", other),
    }
    let only_missing = fallback(&["gone"], FallbackStrategy::Sequential, 1);
    let mut run = FallbackRun::start(&only_missing, 0).unwrap();
    match run.next(&only_missing, &lanes) {
        FallbackAction::Finish(Err(NodeError::Internal(m))) => {
            assert_eq!(m, "fallback: no provider could be attempted (missing lanes or client)")
        }
        other => panic!("unexpected {:?}", other),
    }
}

#[test]
fn fallback_without_pool_aborts() {
    let config = fallback(&["a"], FallbackStrategy::Sequential, 1);
    let lanes = two_lanes();
    let mut run = FallbackRun::start(&config, 0).unwrap();
    let _ = run.next(&config, &lanes);
    match run.on_pool(&config, &lanes, LanePool::Missing) {
        FallbackAction::Finish(Err(NodeError::Internal(m))) => {
            assert_eq!(m, "no connection pool for lane 'a' (masked egress requires a lane pool)")
        }
        other => panic!("unexpected {:?}", other),
    }
}

#[test]
fn fallback_round_robin_starts_at_turn() {
    let config = fallback(&["a", "b"], FallbackStrategy::RoundRobin, 0);
    let lanes = two_lanes();
    let mut run = FallbackRun::start(&config, 3).unwrap();
    assert_eq!(run.rounds, 1);
    match run.next(&config, &lanes) {
        FallbackAction::CheckPool(l) => assert_eq!(l, "b"),
        other => panic!("unexpected {:?}", other),
    }
    assert!(FallbackStrategy::RoundRobin.takes_turns());
    assert!(!FallbackStrategy::Sequential.takes_turns());
}

// ─── Retry runs ─────────────────────────────────────────────────────────────

#[test]
fn retry_run_rejects_zero_attempts() {
    let mut c = cfg(true);
    c.max_attempts = 0;
    match RetryRun::start(&c) {
        Err(NodeError::Internal(m)) => assert_eq!(m, "retry: max_attempts must be \u{2265} 1"),
        _ => panic!("expected an error"),
    }
}

#[test]
fn retry_run_stops_after_max_attempts() {
    let c = cfg(true);
    let mut run = RetryRun::start(&c).unwrap();
    assert_eq!(run.attempt, 1);
    assert!(matches!(run.on_outcome(&c, failure("a")), RetryAction::WaitThenCall(0)));
    assert!(matches!(run.on_outcome(&c, failure("b")), RetryAction::WaitThenCall(0)));
    match run.on_outcome(&c, failure("c")) {
        RetryAction::Finish(Err(NodeError::Provider(ProtocolEngineError::ProviderError { message, .. }))) => assert_eq!(message, "c"),
        other => panic!("unexpected {:?}", other),
    }
    assert_eq!(run.attempt, 3);
}

#[test]
fn retry_run_surfaces_non_retryable_error_at_once() {
    let c = cfg(false);
    let mut run = RetryRun::start(&c).unwrap();
    match run.on_outcome(&c, Err(NodeError::Internal("x".into()))) {
        RetryAction::Finish(Err(NodeError::Internal(m))) => assert_eq!(m, "x"),
        other => panic!("unexpected {:?}", other),
    }
}

// ─── LLM calls ──────────────────────────────────────────────────────────────

#[test]
fn prepare_call_resolves_lane_and_stream() {
    let lanes = two_lanes();
    let mut config = llm_config(Some("a"));
    config.protocol = Some("anthropic".into());
    let call = prepare_call(&config, &lanes, &RuntimeValue::String("hi".into())).unwrap();
    assert_eq!(call.target, Protocol::AnthropicMessages);
    assert_eq!(call.lane_id, "a");
    assert!(call.request.stream);
    assert_eq!(call.request.model, "gpt-4");
    assert_eq!(call.request.messages.len(), 1);
    let missing = prepare_call(&llm_config(Some("zzz")), &lanes, &RuntimeValue::Null);
    match missing {
        Err(NodeError::Internal(m)) => assert_eq!(m, "lane not found: zzz"),
        _ => panic!("expected an error"),
    }
    let mut no_model = llm_config(Some("b"));
    no_model.model = None;
    assert_eq!(prepare_call(&no_model, &lanes, &RuntimeValue::Null).unwrap().request.model, "default");
    match prepare_call(&llm_config(None), &lanes, &RuntimeValue::Null) {
        Err(NodeError::Internal(m)) => assert_eq!(m, "LLM node has no lane_id but 2 lanes exist; a lane_id is required"),
        _ => panic!("expected an error"),
    }
}

#[test]
fn http_request_targets_protocol_path() {
    let entry = LaneEntry {
        id: "a".into(),
        base_url: "http://127.0.0.1:9000/".into(),
        authorization: Some("Bearer k".into()),
        egress: "direct".into(),
        proxy_url: None,
    };
    let req = build_http_request(b"{}".to_vec(), &entry, Protocol::AnthropicMessages).unwrap();
    assert_eq!(req.url, "http://127.0.0.1:9000/v1/messages");
    assert_eq!(req.body, b"{}".to_vec());
    assert_eq!(
        req.headers,
        vec![
            ("content-type".to_string(), "application/json".to_string()),
            ("anthropic-version".to_string(), "2023-06-01".to_string()),
            ("authorization".to_string(), "Bearer k".to_string()),
        ]
    );
    let plain = lane("b", "http://h:1");
    let req = build_http_request(vec![], &plain, Protocol::OpenAiChatCompletions).unwrap();
    assert_eq!(req.url, "http://h:1/v1/chat/completions");
    assert_eq!(req.headers.len(), 1);
    let req = build_http_request(vec![], &plain, Protocol::OpenAiResponses).unwrap();
    assert_eq!(req.url, "http://h:1/v1/responses");
    match build_http_request(vec![], &lane("c", "not a url"), Protocol::OpenAiResponses) {
        Err(NodeError::Internal(m)) => assert_eq!(m, "invalid lane URL: relative URL without a base"),
        other => panic!("unexpected {:?}", other.map(|_| ())),
    }
}

#[test]
fn compiled_lanes_hold_parsed_urls() {
    let snapshot = build_snapshot("wf", in_out_plan("wf"), &[("a".to_string(), "http://H:80/x".to_string())]);
    assert_eq!(snapshot.lanes().get("a").map(|e| e.base_url.as_str()), Some("http://h/x"));
}

#[test]
fn workflow_error_messages() {
    assert_eq!(WorkflowError::Timeout(std::time::Duration::from_secs(5)).to_string(), "workflow timed out after 5s");
    assert_eq!(WorkflowError::Cancelled.to_string(), "workflow cancelled");
    assert_eq!(
        WorkflowError::Validation("bad".into()).to_string(),
        "workflow validation failed: bad"
    );
}

