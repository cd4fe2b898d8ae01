//! Workflow capabilities and milestone reporters.

use relay_core::workflow::capability::Capabilities;
use relay_core::workflow::milestone::{MilestoneReporter, NoopReporter};
use std::sync::Arc;
use std::sync::atomic::{AtomicUsize, Ordering};

#[test]
fn default_capabilities_are_all_false() {
    let caps = Capabilities::default();
    assert!(!caps.streaming);
    assert!(!caps.tools);
    assert!(!caps.structured_output);
    assert!(!caps.reasoning);
}

#[test]
fn excess_detects_missing_capabilities() {
    let required = Capabilities {
        streaming: true,
        tools: true,
        ..Default::default()
    };
    let available = Capabilities {
        streaming: true,
        tools: false,
        ..Default::default()
    };
    let missing = required.excess(&available);
    assert_eq!(missing, vec!["tools"]);
}

#[test]
fn satisfied_when_all_required_present() {
    let required = Capabilities {
        streaming: true,
        reasoning: true,
        ..Default::default()
    };
    let available = Capabilities {
        streaming: true,
        reasoning: true,
        vision: true,
        ..Default::default()
    };
    assert!(required.is_satisfied_by(&available));
}

#[test]
fn not_satisfied_when_missing_required() {
    let required = Capabilities {
        streaming: true,
        reasoning: true,
        ..Default::default()
    };
    let available = Capabilities {
        streaming: true,
        ..Default::default()
    };
    assert!(!required.is_satisfied_by(&available));
}

#[test]
fn noop_reporter_is_a_noop() {
    let r = NoopReporter;
    r.node_completed("llm", Some("out"));
    r.node_failed("llm", "boom");
}

struct Count(AtomicUsize);

impl MilestoneReporter for Count {
    fn node_completed(&self, _id: &str, _p: Option<&str>) {
        self.0.fetch_add(1, Ordering::Relaxed);
    }
    fn node_failed(&self, _id: &str, _e: &str) {}
}

#[test]
fn dyn_reporter_dispatch() {
    let reporter = Arc::new(Count(AtomicUsize::new(0)));
    let r: Arc<dyn MilestoneReporter> = reporter.clone();
    r.node_completed("a", None);
    r.node_completed("b", None);
    assert_eq!(reporter.0.load(Ordering::Relaxed), 2);
}

#[test]
fn excess_lists_every_missing_capability_in_order() {
    let all = Capabilities {
        streaming: true,
        tools: true,
        structured_output: true,
        reasoning: true,
        vision: true,
        audio: true,
        citations: true,
        deferred_tools: true,
        cache_hints: true,
    };
    let none = Capabilities::default();
    assert_eq!(
        all.excess(&none),
        vec![
            "streaming",
            "tools",
            "structured_output",
            "reasoning",
            "vision",
            "audio",
            "citations",
            "deferred_tools",
            "cache_hints"
        ]
    );
    assert!(none.is_satisfied_by(&none));
    assert!(all.is_satisfied_by(&all));
    assert!(none.excess(&all).is_empty());
}

#[test]
fn from_protocol_maps_multimodal_input_to_vision() {
    let caps = Capabilities::from_protocol(&relay_core::adapters::openai_chat::capabilities());
    assert!(caps.streaming);
    assert!(caps.tools);
    assert!(caps.structured_output);
    assert!(!caps.reasoning);
    assert!(caps.vision);
    assert!(!caps.audio);
    assert!(!caps.citations);
    assert!(!caps.deferred_tools);
    assert!(!caps.cache_hints);
}
