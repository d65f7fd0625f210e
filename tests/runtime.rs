use heimdall::dispatcher::{Dispatcher, Op, Response};
use heimdall::runtime::{conclude, guest_args, mutation_status, outcome_of, upload_status, ExecutionResult};

#[test]
fn empty_output_is_empty_success() {
    assert_eq!(conclude(Some(Vec::new())), ExecutionResult::Success(String::new()));
}

#[test]
fn output_is_decoded_as_text() {
    assert_eq!(
        conclude(Some(b"{\"n\":3}".to_vec())),
        ExecutionResult::Success("{\"n\":3}".to_string())
    );
    assert_eq!(
        conclude(Some("h\u{e9}".as_bytes().to_vec())),
        ExecutionResult::Success("h\u{e9}".to_string())
    );
}

#[test]
fn invalid_text_is_a_runtime_error() {
    assert_eq!(conclude(Some(vec![0xff, 0xfe])), ExecutionResult::RuntimeExecutionError);
}

#[test]
fn failed_run_is_a_runtime_error() {
    assert_eq!(conclude(None), ExecutionResult::RuntimeExecutionError);
    assert_eq!(outcome_of(None), ExecutionResult::RuntimeExecutionError);
}

#[test]
fn responses_hide_causes() {
    let ok = ExecutionResult::Success("out".to_string());
    assert_eq!(ok.status_code(), 200);
    assert_eq!(ok.body(), "out");
    let res = ExecutionResult::ModuleResolutionError;
    assert_eq!(res.status_code(), 500);
    assert_eq!(res.body(), "Module resolution error");
    let run = ExecutionResult::RuntimeExecutionError;
    assert_eq!(run.status_code(), 500);
    assert_eq!(run.body(), "Runtime execution error");
}

#[test]
fn guest_gets_label_then_payload() {
    assert_eq!(guest_args("greet", "{\"name\":\"x\"}"), vec!["greet".to_string(), "{\"name\":\"x\"}".to_string()]);
}

struct Double(u32);

impl Op for Double {
    type Output = u32;

    fn id() -> &'static str {
        "double"
    }

    fn execute(&self) -> u32 {
        self.0 * 2
    }
}

#[test]
fn dispatcher_keeps_its_url_and_runs_in_place() {
    let d = Dispatcher::create("http://localhost:8080/execute/m".to_string());
    assert_eq!(d.url(), "http://localhost:8080/execute/m");
    assert_eq!(Double::id(), "double");
    match d.send(&Double(21)) {
        Response::Success(v) => assert_eq!(v, 42),
        other => panic!("unexpected {:?}", other),
    }
}

#[test]
fn unknown_label_selects_nothing_and_succeeds_empty() {
    let ids = ["greet", "count"];
    assert!(heimdall::dispatcher::select_ops("missing", &ids).is_empty());
    assert_eq!(conclude(Some(Vec::new())), ExecutionResult::Success(String::new()));
}

#[test]
fn label_selects_every_matching_op() {
    let ids = ["greet", "count", "greet"];
    assert_eq!(heimdall::dispatcher::select_ops("greet", &ids), vec![0, 2]);
    assert_eq!(heimdall::dispatcher::select_ops("count", &ids), vec![1]);
    assert!(heimdall::dispatcher::select_ops("", &[]).is_empty());
}

#[test]
fn mutation_and_upload_statuses() {
    assert_eq!(mutation_status(true), 204);
    assert_eq!(mutation_status(false), 500);
    assert_eq!(upload_status(None), 500);
    assert_eq!(upload_status(Some(true)), 204);
    assert_eq!(upload_status(Some(false)), 500);
}
