//! The layout of a store on disk: one directory per module, holding the
//! binary and two optional side files of JSON, and how a module is assembled
//! from what those files hold.
use crate::store::{caps_unique, is_mapping, CapsView, ModuleView, StoredModule, VarsView};
use indexmap::IndexMap;
use vstd::prelude::*;

verus! {

/// A store that keeps each module in a directory of its own under `dir`.
pub struct DiskStore {
    pub dir: String,
}

/// The variables that a JSON text holds, as an array of [name, value] pairs;
/// nothing where the text is not of that shape.
pub uninterp spec fn vars_from_json(text: Seq<char>) -> Option<VarsView>;

/// The capability configuration that a JSON text holds, as an object of
/// objects of strings, entries in the order of the text; nothing where the
/// text is not of that shape.
pub uninterp spec fn caps_from_json(text: Seq<char>) -> Option<CapsView>;

/// Relies on serde_json::from_str: parses a JSON array of [name, value] pairs.
#[verifier::external_body]
fn parse_vars(text: &str) -> (r: Option<Vec<(String, String)>>)
    ensures
        match r {
            Some(v) => vars_from_json(text@) == Some(v.deep_view()),
            None => vars_from_json(text@) is None,
        },
{
    serde_json::from_str(text).ok()
}

/// Relies on serde_json::from_str into indexmap::IndexMap: parses a JSON
/// object whose values are objects of strings, keeping the order of the text.
#[verifier::external_body]
fn parse_caps(text: &str) -> (r: Option<Vec<(String, Vec<(String, String)>)>>)
    ensures
        match r {
            Some(c) => caps_from_json(text@) == Some(c.deep_view()),
            None => caps_from_json(text@) is None,
        },
{
    let parsed: Option<IndexMap<String, IndexMap<String, String>>> = serde_json::from_str(text).ok();
    parsed.map(|m| m.into_iter().map(|(name, args)| (name, args.into_iter().collect())).collect())
}

/// The JSON text of a list of variables: an array of [name, value] pairs.
pub uninterp spec fn vars_to_json(vars: VarsView) -> Seq<char>;

/// The JSON text of a capability configuration: an object of objects of
/// strings, entries in the order given.
pub uninterp spec fn caps_to_json(caps: CapsView) -> Seq<char>;

/// Relies on serde_json::to_string: the JSON text of the variables.
#[verifier::external_body]
fn render_vars(vars: &Vec<(String, String)>) -> (r: Option<String>)
    ensures
        r is Some ==> r.unwrap()@ == vars_to_json(vars.deep_view()),
{
    serde_json::to_string(vars).ok()
}

/// Relies on serde_json::to_string over indexmap::IndexMap: the JSON object
/// of the configuration, entries in the order given. With unique names the
/// maps hold every entry.
#[verifier::external_body]
fn render_caps(caps: &Vec<(String, Vec<(String, String)>)>) -> (r: Option<String>)
    requires
        caps_unique(caps.deep_view()),
    ensures
        r is Some ==> r.unwrap()@ == caps_to_json(caps.deep_view()),
{
    let map: IndexMap<&str, IndexMap<&str, &str>> = caps
        .iter()
        .map(|(name, args)| (name.as_str(), args.iter().map(|(k, v)| (k.as_str(), v.as_str())).collect()))
        .collect();
    serde_json::to_string(&map).ok()
}

/// The variables of a module whose variables file holds `text`; an absent
/// file means no variables.
pub open spec fn vars_of(text: Option<String>) -> Option<VarsView> {
    match text {
        None => Some(Seq::empty()),
        Some(t) => vars_from_json(t@),
    }
}

/// The capability configuration of a module whose capabilities file holds
/// `text`; an absent file means no capabilities.
pub open spec fn caps_of(text: Option<String>) -> Option<CapsView> {
    match text {
        None => Some(Seq::empty()),
        Some(t) => caps_from_json(t@),
    }
}

/// The module that the files of one module directory make up: it needs its
/// binary, and side files that are absent or parse.
pub open spec fn module_of(binary: Option<Vec<u8>>, vars: Option<String>, caps: Option<String>) -> Option<ModuleView> {
    match (binary, vars_of(vars), caps_of(caps)) {
        (Some(b), Some(v), Some(c)) => Some((b@, v, c)),
        _ => None,
    }
}

impl DiskStore {
    /// File holding a module's binary.
    pub const MODULE_FILE: &'static str = "module.wasm";

    /// File holding a module's variables; absent means none.
    pub const VARIABLES_FILE: &'static str = "env.json";

    /// File holding a module's capability configuration; absent means none.
    pub const CAPABILITIES_FILE: &'static str = "caps.json";

    /// A store rooted at `dir`.
    pub fn new(dir: String) -> (r: DiskStore)
        ensures
            r.dir == dir,
    {
        DiskStore { dir }
    }

    /// The text of a variables file holding `vars`; nothing where it could
    /// not be rendered.
    pub fn variables_text(vars: &Vec<(String, String)>) -> (r: Option<String>)
        ensures
            r is Some ==> r.unwrap()@ == vars_to_json(vars.deep_view()),
    {
        render_vars(vars)
    }

    /// The text of a capabilities file holding `caps`. Nothing where a name
    /// repeats (a JSON object cannot hold the configuration as given) or the
    /// text could not be rendered.
    pub fn capabilities_text(caps: &Vec<(String, Vec<(String, String)>)>) -> (r: Option<String>)
        ensures
            !caps_unique(caps.deep_view()) ==> r is None,
            r is Some ==> caps_unique(caps.deep_view()) && r.unwrap()@ == caps_to_json(caps.deep_view()),
    {
        if !is_mapping(caps) {
            return None;
        }
        render_caps(caps)
    }

    /// Assembles a module from the contents of its files: the binary (nothing
    /// where it could not be read), and the text of each side file (nothing
    /// where the file is absent).
    pub fn module_from_files(binary: Option<Vec<u8>>, vars: Option<String>, caps: Option<String>) -> (r: Option<
        StoredModule,
    >)
        ensures
            match r {
                Some(m) => module_of(binary, vars, caps) == Some(m@),
                None => module_of(binary, vars, caps) is None,
            },
    {
        let binary = match binary {
            Some(b) => b,
            None => {
                return None;
            },
        };
        let variables = match vars {
            None => Vec::new(),
            Some(text) => match parse_vars(text.as_str()) {
                Some(v) => v,
                None => {
                    return None;
                },
            },
        };
        let capabilities = match caps {
            None => Vec::new(),
            Some(text) => match parse_caps(text.as_str()) {
                Some(c) => c,
                None => {
                    return None;
                },
            },
        };
        let m = StoredModule { binary, variables, capabilities };
        assert(m.variables.deep_view() =~= vars_of(vars).unwrap());
        assert(m.capabilities.deep_view() =~= caps_of(caps).unwrap());
        Some(m)
    }
}

} // verus!
