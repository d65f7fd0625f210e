//! The rules of one execution: which module runs, what the guest is handed,
//! and what outcome its captured output becomes.
use crate::dispatcher::selects;
use crate::registry::{resolved, EnvironmentRef, Registry};
use crate::store::Store;
use vstd::prelude::*;

verus! {

/// The externally visible outcome of an execution.
#[derive(Debug, PartialEq, Eq)]
pub enum ExecutionResult {
    /// The guest ran; its standard output, as text.
    Success(String),
    /// No runnable module goes by the requested id.
    ModuleResolutionError,
    /// Preparing, linking or running the guest failed, or its output was not text.
    RuntimeExecutionError,
}

/// Body of the response to a module that could not be resolved.
pub const MODULE_RESOLUTION_MESSAGE: &'static str = "Module resolution error";

/// Body of the response to an execution that failed.
pub const RUNTIME_EXECUTION_MESSAGE: &'static str = "Runtime execution error";

impl ExecutionResult {
    /// HTTP status of the response: 200 on success, else 500.
    pub fn status_code(&self) -> (r: u16)
        ensures
            r == (if self is Success {
                200u16
            } else {
                500u16
            }),
    {
        match self {
            ExecutionResult::Success(_) => 200,
            _ => 500,
        }
    }

    /// Body of the response: the guest's output on success, else a fixed
    /// message that tells nothing of the cause.
    pub fn body(&self) -> (r: String)
        ensures
            match self {
                ExecutionResult::Success(text) => r@ == text@,
                ExecutionResult::ModuleResolutionError => r@ == MODULE_RESOLUTION_MESSAGE@,
                ExecutionResult::RuntimeExecutionError => r@ == RUNTIME_EXECUTION_MESSAGE@,
            },
    {
        match self {
            ExecutionResult::Success(text) => text.clone(),
            ExecutionResult::ModuleResolutionError => MODULE_RESOLUTION_MESSAGE.to_owned(),
            ExecutionResult::RuntimeExecutionError => RUNTIME_EXECUTION_MESSAGE.to_owned(),
        }
    }
}

/// HTTP status of a request that changes a module: 204 where the change was
/// made, else 500.
pub fn mutation_status(done: bool) -> (r: u16)
    ensures
        r == (if done {
            204u16
        } else {
            500u16
        }),
{
    if done {
        204
    } else {
        500
    }
}

/// HTTP status of an upload: as for any change to a module, where a
/// request that carried no binary made no change.
pub fn upload_status(added: Option<bool>) -> (r: u16)
    ensures
        r == (if added == Some(true) {
            204u16
        } else {
            500u16
        }),
{
    match added {
        None => mutation_status(false),
        Some(done) => mutation_status(done),
    }
}

/// The text that the bytes `b` spell in UTF-8, if they are valid UTF-8.
pub uninterp spec fn utf8_text(b: Seq<u8>) -> Option<Seq<char>>;

/// Relies on String::from_utf8: the text, or nothing where the bytes are not
/// valid UTF-8; no bytes are the empty text.
#[verifier::external_body]
fn decode_utf8(bytes: Vec<u8>) -> (r: Option<String>)
    ensures
        r is Some ==> utf8_text(bytes@) == Some(r.unwrap()@),
        r is None ==> utf8_text(bytes@) is None,
        bytes@.len() == 0 ==> r is Some && r.unwrap()@.len() == 0,
{
    String::from_utf8(bytes).ok()
}

/// The outcome of a run whose output decoded to `text` (nothing where it did
/// not decode).
pub fn outcome_of(text: Option<String>) -> (r: ExecutionResult)
    ensures
        match text {
            Some(t) => r == ExecutionResult::Success(t),
            None => r == ExecutionResult::RuntimeExecutionError,
        },
{
    match text {
        Some(t) => ExecutionResult::Success(t),
        None => ExecutionResult::RuntimeExecutionError,
    }
}

/// The outcome of a run that captured `captured` (nothing where preparing,
/// linking or running the guest failed): its output as text, or the runtime
/// error where there is none or it is not text. No output is the empty text.
pub open spec fn concluded(captured: Option<Vec<u8>>, r: ExecutionResult) -> bool {
    &&& match captured {
        None => r == ExecutionResult::RuntimeExecutionError,
        Some(b) => match utf8_text(b@) {
            Some(t) => r matches ExecutionResult::Success(s) && s@ == t,
            None => r == ExecutionResult::RuntimeExecutionError,
        },
    }
    &&& (captured matches Some(b) && b@.len() == 0) ==> (r matches ExecutionResult::Success(s) && s@.len() == 0)
}

/// The outcome of a run of a resolved module: what the guest wrote to its
/// standard output, or nothing where preparing, linking or running it failed.
/// A guest that wrote nothing (as one does for a label that names none of its
/// operations) succeeds with the empty text.
pub fn conclude(captured: Option<Vec<u8>>) -> (r: ExecutionResult)
    ensures
        concluded(captured, r),
{
    match captured {
        None => ExecutionResult::RuntimeExecutionError,
        Some(bytes) => outcome_of(decode_utf8(bytes)),
    }
}

/// A label that names none of a guest's operations selects none of them, so
/// the guest writes nothing; a run that captured nothing concludes as success
/// with the empty text, not as an error.
pub proof fn lemma_unmatched_label_is_empty_success(
    label: Seq<char>,
    ids: Seq<&'static str>,
    selected: Seq<usize>,
    captured: Vec<u8>,
    r: ExecutionResult,
)
    requires
        forall|i: int| 0 <= i < ids.len() ==> ids[i]@ != label,
        selects(label, ids, selected),
        captured@.len() == 0,
        concluded(Some(captured), r),
    ensures
        selected.len() == 0,
        r matches ExecutionResult::Success(s) && s@.len() == 0,
{
    if selected.len() > 0 {
        assert(ids[selected[0] as int]@ == label);
    }
}

/// The guest's argument vector: the label, then the serialized payload.
pub fn guest_args(label: &str, json: &str) -> (r: Vec<String>)
    ensures
        r@.len() == 2,
        r@[0]@ == label@,
        r@[1]@ == json@,
{
    let mut r: Vec<String> = Vec::new();
    r.push(label.to_owned());
    r.push(json.to_owned());
    r
}

/// The outcome of resolution: the environment, or the resolution error
/// where there is none.
pub fn resolution_outcome(env: Option<EnvironmentRef>) -> (r: Result<EnvironmentRef, ExecutionResult>)
    ensures
        env matches Some(e) ==> r is Ok && r->Ok_0 == e,
        env is None ==> r is Err && r->Err_0 == ExecutionResult::ModuleResolutionError,
{
    match env {
        Some(e) => Ok(e),
        None => Err(ExecutionResult::ModuleResolutionError),
    }
}

/// The first step of an execution: the environment of `module_id`, or the
/// resolution error where the registry has none.
pub fn resolve_for_exec<S: Store>(registry: &mut Registry<S>, module_id: &str) -> (r: Result<
    EnvironmentRef,
    ExecutionResult,
>)
    requires
        old(registry).wf(),
    ensures
        final(registry).wf(),
        final(registry).stored() == old(registry).stored(),
        match r {
            Ok(env) => resolved(old(registry).stored(), module_id@, Some(env)),
            Err(e) => e == ExecutionResult::ModuleResolutionError,
        },
        !old(registry).stored().contains_key(module_id@) ==> r == Err::<EnvironmentRef, ExecutionResult>(
            ExecutionResult::ModuleResolutionError,
        ),
{
    match registry.resolve(module_id) {
        Some(env) => Ok(env),
        None => Err(ExecutionResult::ModuleResolutionError),
    }
}

} // verus!
