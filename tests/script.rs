use catch::runtime::{classify_failure, marshal, EngineFailure, ExecutionResult, RuntimeError, ScriptType};
use catch::script::{dispatch, script_reply};

#[test]
fn available_lists_javascript() {
    assert_eq!(ScriptType::available(), vec!["javascript".to_string()]);
    assert_eq!(ScriptType::available_list(), "javascript");
}

#[test]
fn javascript_type_dispatches() {
    match dispatch("application/javascript", "1 + 1".to_string()) {
        Ok(ScriptType::JavaScript(s)) => assert_eq!(s, "1 + 1"),
        Err(_) => panic!("rejected"),
    }
}

#[test]
fn empty_type_defaults_to_javascript() {
    match dispatch("", "null".to_string()) {
        Ok(t) => assert_eq!(t.source(), "null"),
        Err(_) => panic!("rejected"),
    }
}

#[test]
fn unsupported_type_lists_languages() {
    let r = dispatch("text/x-python", "print(1)".to_string());
    match r {
        Err(e) => {
            assert_eq!(e.status(), 400);
            let (status, body) = script_reply(Err(e));
            assert_eq!(status, 400);
            assert_eq!(body, "javascript");
        }
        Ok(_) => panic!("accepted"),
    }
}

#[test]
fn results_marshalled() {
    assert_eq!(marshal(ExecutionResult::Null), "null");
    assert_eq!(marshal(ExecutionResult::Undefined), "undefined");
    assert_eq!(marshal(ExecutionResult::Text("hi".to_string())), "hi");
    assert_eq!(marshal(ExecutionResult::Structured("[1,2,3]".to_string())), "[1,2,3]");
}

#[test]
fn run_maps_outcomes() {
    let s = ScriptType::JavaScript("x".to_string());
    assert_eq!(script_reply(s.run(Ok(ExecutionResult::Null))), (200, "null".to_string()));
    assert_eq!(
        script_reply(s.run(Ok(ExecutionResult::Text("hi".to_string())))),
        (200, "hi".to_string())
    );
    assert_eq!(
        script_reply(s.run(Err(EngineFailure::Script("ReferenceError: y".to_string())))),
        (400, "ReferenceError: y".to_string())
    );
    assert_eq!(
        script_reply(s.run(Err(EngineFailure::WorkerSetup))),
        (500, "JavaScript Worker initialization failed".to_string())
    );
}

#[test]
fn failures_classified() {
    let e = classify_failure(EngineFailure::RuntimeSetup);
    assert!(matches!(e, RuntimeError::InternalError(_)));
    assert_eq!(e.status(), 500);
    assert_eq!(e.message(), "JavaScript Runtime initialization failed");
    let e = classify_failure(EngineFailure::ContextSetup);
    assert_eq!(e.message(), "JavaScript Context initialization failed");
    let e = classify_failure(EngineFailure::Script("boom".to_string()));
    assert_eq!(e.status(), 400);
    assert_eq!(e.message(), "boom");
}
