//! The client side of operations: an operation names itself with a stable
//! id, and a dispatcher hands it to a host or runs it in place.
use vstd::prelude::*;

verus! {

/// A unit of work that a guest module is built with, dispatched by its id.
pub trait Op {
    type Output;

    /// The stable id under which the operation is dispatched.
    fn id() -> &'static str;

    /// Runs the operation.
    fn execute(&self) -> Self::Output;
}

/// Whether `selected` lists, in increasing order and each once, exactly the
/// positions of the ids in `ids` that equal `label`.
pub open spec fn selects(label: Seq<char>, ids: Seq<&'static str>, selected: Seq<usize>) -> bool {
    &&& forall|k: int| 0 <= k < selected.len() ==> (#[trigger] selected[k] as int) < ids.len() && ids[selected[k] as int]@ == label
    &&& forall|k: int, l: int| 0 <= k < l < selected.len() ==> selected[k] < selected[l]
    &&& forall|j: int| 0 <= j < ids.len() && #[trigger] ids[j]@ == label ==> selected.contains(j as usize)
}

/// The operations that a guest's entrypoint runs for `label`, by position
/// among the ids it was built with: every one whose id is `label`. A label
/// that names none selects nothing, and the guest then writes nothing.
pub fn select_ops(label: &str, ids: &[&'static str]) -> (r: Vec<usize>)
    ensures
        selects(label@, ids@, r@),
{
    let wanted = label.to_owned();
    let mut r: Vec<usize> = Vec::new();
    let mut i: usize = 0;
    while i < ids.len()
        invariant
            i <= ids@.len(),
            wanted@ == label@,
            forall|k: int| 0 <= k < r@.len() ==> (#[trigger] r@[k] as int) < i && ids@[r@[k] as int]@ == label@,
            forall|k: int, l: int| 0 <= k < l < r@.len() ==> r@[k] < r@[l],
            forall|j: int| 0 <= j < i && #[trigger] ids@[j]@ == label@ ==> r@.contains(j as usize),
        decreases ids.len() - i,
    {
        let id = ids[i].to_owned();
        if id == wanted {
            let ghost before = r@;
            r.push(i);
            assert forall|j: int| 0 <= j < i && #[trigger] ids@[j]@ == label@ implies r@.contains(j as usize) by {
                let k = choose|k: int| 0 <= k < before.len() && before[k] == j as usize;
                assert(r@[k] == j as usize);
            }
            assert(r@[r@.len() - 1] == i);
        }
        i = i + 1;
    }
    r
}

/// What a dispatched operation came back with.
#[derive(Debug)]
pub enum Response<T> {
    /// The operation's output.
    Success(T),
    /// The host could not be reached.
    NetworkError(String),
    /// The host answered with an error status and body.
    RequestError(u16, String),
    /// The host's answer did not parse as the operation's output.
    ParseError(String),
}

/// Sends operations to the host at a URL.
pub struct Dispatcher {
    url: String,
}

impl Dispatcher {
    /// The URL that operations are sent to.
    pub closed spec fn endpoint(&self) -> Seq<char> {
        self.url@
    }

    /// A dispatcher for the host at `url`.
    pub fn create(url: String) -> (r: Dispatcher)
        ensures
            r.endpoint() == url@,
    {
        Dispatcher { url }
    }

    /// The URL that operations are sent to.
    pub fn url(&self) -> (r: &str)
        ensures
            r@ == self.endpoint(),
    {
        self.url.as_str()
    }

    /// Runs `op` in this process, as a host would, and returns its output.
    pub fn send<T: Op>(&self, op: &T) -> (r: Response<T::Output>)
        ensures
            r is Success,
    {
        Response::Success(op.execute())
    }
}

} // verus!
