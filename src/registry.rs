//! The registry: stored modules, and a bounded cache of the environments
//! compiled from them, kept coherent with the store.
use crate::capability::{config_outcome, valid_config, Capability, CapabilityInitError};
use crate::compile::compile;
use crate::store::{
    added, caps_attached, removed, retrieved, vars_attached, caps_unique, is_mapping, CapsView, ModuleView, Store, StoreView, StoredModule, VarsView,
};
use moka::sync::Cache;
use std::sync::Arc;
use vstd::prelude::*;
use wasmtime::{Engine, Module};

verus! {

/// A module ready to run: its compiled code, variables and capabilities.
pub struct Environment {
    pub engine: Engine,
    pub module: Module,
    pub variables: Vec<(String, String)>,
    pub capabilities: Vec<Capability>,
}

/// Shared handle on an environment.
pub type EnvironmentRef = Arc<Environment>;

/// Whether `env` is what the stored module `m` compiles to: the same
/// variables, and one capability built from each capability entry, in order.
pub open spec fn env_matches(env: Environment, m: ModuleView) -> bool {
    &&& env.variables.deep_view() == m.1
    &&& env.capabilities@.len() == m.2.len()
    &&& forall|i: int|
        0 <= i < m.2.len() ==> config_outcome(
            m.2[i].0,
            m.2[i].1,
            Ok::<Capability, CapabilityInitError>(#[trigger] env.capabilities@[i]),
        )
}

/// Every entry of a capability configuration is valid.
pub open spec fn all_valid(caps: CapsView) -> bool {
    forall|i: int| 0 <= i < caps.len() ==> #[trigger] valid_config(caps[i].0, caps[i].1)
}

/// An environment built from a stored module has a valid capability configuration.
proof fn lemma_valid_if_matches(stored: StoreView, id: Seq<char>)
    ensures
        forall|env: Environment| stored.contains_key(id) && #[trigger] env_matches(env, stored[id]) ==> all_valid(stored[id].2),
{
    assert forall|env: Environment| stored.contains_key(id) && #[trigger] env_matches(env, stored[id]) implies all_valid(stored[id].2) by {
        let caps = stored[id].2;
        assert forall|i: int| 0 <= i < caps.len() implies #[trigger] valid_config(caps[i].0, caps[i].1) by {
            assert(config_outcome(caps[i].0, caps[i].1, Ok(env.capabilities@[i])));
        }
    }
}

/// Resolution serves only what the store holds: an environment for `id` is
/// compiled from the module stored under `id`, as it is stored now.
pub open spec fn resolved(stored: StoreView, id: Seq<char>, r: Option<EnvironmentRef>) -> bool {
    match r {
        Some(env) => stored.contains_key(id) && env_matches(*env, stored[id]),
        None => true,
    }
}

#[verifier::external_type_specification]
#[verifier::external_body]
#[verifier::reject_recursive_types(K)]
#[verifier::reject_recursive_types(V)]
#[verifier::reject_recursive_types(S)]
pub struct ExCache<K, V, S>(moka::sync::Cache<K, V, S>);

/// The cache of compiled environments, by module id.
pub type ModuleCache = Cache<String, EnvironmentRef>;

/// Cached environments by module id.
pub type CacheView = Map<Seq<char>, EnvironmentRef>;

/// The entries that a lookup in the cache can return. Eviction, which the
/// cache performs on its own to stay near its capacity, only ever removes
/// entries, so what a lookup returns is always among these.
pub uninterp spec fn cached(c: ModuleCache) -> CacheView;

/// Relies on moka::sync::Cache::new: a cache with no entries.
#[verifier::external_body]
fn cache_new(max_capacity: u64) -> (r: ModuleCache)
    ensures
        cached(r) == CacheView::empty(),
{
    Cache::new(max_capacity)
}

/// Relies on moka::sync::Cache::get: a clone of the value cached under `key`,
/// if one is.
#[verifier::external_body]
fn cache_get(c: &ModuleCache, key: &str) -> (r: Option<EnvironmentRef>)
    ensures
        r matches Some(v) ==> cached(*c).contains_key(key@) && cached(*c)[key@] == v,
{
    c.get(key)
}

/// Relies on moka::sync::Cache::insert: the value is cached under `key`, in
/// place of any earlier one.
#[verifier::external_body]
fn cache_insert(c: &mut ModuleCache, key: String, value: EnvironmentRef)
    ensures
        cached(*final(c)) == cached(*old(c)).insert(key@, value),
{
    c.insert(key, value)
}

/// Relies on moka::sync::Cache::invalidate: any value cached under `key` is
/// discarded.
#[verifier::external_body]
fn cache_invalidate(c: &mut ModuleCache, key: &str)
    ensures
        cached(*final(c)) == cached(*old(c)).remove(key@),
{
    c.invalidate(key)
}

/// Relies on Arc::clone: a second handle on the same environment.
#[verifier::external_body]
fn share(env: &EnvironmentRef) -> (r: EnvironmentRef)
    ensures
        r == *env,
{
    Arc::clone(env)
}

/// Stored modules and the environments compiled from them.
pub struct Registry<S: Store> {
    store: S,
    modules: ModuleCache,
}

impl<S: Store> Registry<S> {
    /// The modules in the store.
    pub closed spec fn stored(&self) -> StoreView {
        self.store.modules()
    }

    /// The store has no medium that can fail.
    pub closed spec fn reliable(&self) -> bool {
        self.store.never_fails()
    }

    /// The environments that the cache can serve, by module id.
    pub closed spec fn cache(&self) -> CacheView {
        cached(self.modules)
    }

    /// The store is sound, and every cached environment is the one that the
    /// module now stored under its id compiles to.
    pub closed spec fn wf(&self) -> bool {
        &&& self.store.inv()
        &&& forall|k: Seq<char>| #[trigger]
            cached(self.modules).contains_key(k) ==> self.stored().contains_key(k) && env_matches(
                *cached(self.modules)[k],
                self.stored()[k],
            )
    }

    /// A registry over `store` that caches up to about `max_cached_modules`
    /// environments.
    pub fn new(store: S, max_cached_modules: u64) -> (r: Registry<S>)
        requires
            store.inv(),
        ensures
            r.wf(),
            r.stored() == store.modules(),
            r.reliable() == store.never_fails(),
    {
        Registry { store, modules: cache_new(max_cached_modules) }
    }

    /// The underlying store.
    pub fn store(&self) -> (r: &S)
        requires
            self.wf(),
        ensures
            r.modules() == self.stored(),
            r.inv(),
            r.never_fails() == self.reliable(),
    {
        &self.store
    }

    /// Stores a new module; never overwrites one.
    pub fn add(&mut self, module_id: &str, binary: Vec<u8>) -> (r: bool)
        requires
            old(self).wf(),
        ensures
            final(self).wf(),
            final(self).reliable() == old(self).reliable(),
            added(old(self).stored(), module_id@, binary@, r, final(self).stored()),
            old(self).reliable() && !old(self).stored().contains_key(module_id@) ==> r,
    {
        self.store.store(module_id, binary)
    }

    /// Replaces the variables of a stored module; its cached environment, if
    /// any, is discarded.
    pub fn attach_variables(&mut self, module_id: &str, variables: &Vec<(String, String)>) -> (r: bool)
        requires
            old(self).wf(),
        ensures
            final(self).wf(),
            final(self).reliable() == old(self).reliable(),
            vars_attached(old(self).stored(), module_id@, variables.deep_view(), r, final(self).stored()),
            old(self).reliable() && old(self).stored().contains_key(module_id@) ==> r,
    {
        let r = self.store.attach_variables(module_id, variables);
        cache_invalidate(&mut self.modules, module_id);
        r
    }

    /// Replaces the capability configuration of a stored module, provided
    /// it is a mapping (no name twice) and every entry of it is valid;
    /// otherwise the store is left as it is.
    pub fn attach_capabilities(
        &mut self,
        module_id: &str,
        capabilities: &Vec<(String, Vec<(String, String)>)>,
    ) -> (r: bool)
        requires
            old(self).wf(),
        ensures
            final(self).wf(),
            all_valid(capabilities.deep_view()) && caps_unique(capabilities.deep_view()) ==> caps_attached(
                old(self).stored(),
                module_id@,
                capabilities.deep_view(),
                r,
                final(self).stored(),
            ),
            !(all_valid(capabilities.deep_view()) && caps_unique(capabilities.deep_view())) ==> !r
                && final(self).stored() == old(self).stored(),
            final(self).reliable() == old(self).reliable(),
            old(self).reliable() && old(self).stored().contains_key(module_id@) && all_valid(
                capabilities.deep_view(),
            ) && caps_unique(capabilities.deep_view()) ==> r,
    {
        let ghost caps = capabilities.deep_view();
        let mut i: usize = 0;
        while i < capabilities.len()
            invariant
                self.wf(),
                self.stored() == old(self).stored(),
                self.reliable() == old(self).reliable(),
                i <= capabilities.len(),
                caps == capabilities.deep_view(),
                forall|j: int| 0 <= j < i ==> #[trigger] valid_config(caps[j].0, caps[j].1),
            decreases capabilities.len() - i,
        {
            assert(caps[i as int] == (capabilities@[i as int].0@, capabilities@[i as int].1.deep_view()));
            match Capability::from_config(capabilities[i].0.as_str(), &capabilities[i].1) {
                Ok(_) => {},
                Err(_) => {
                    assert(!valid_config(caps[i as int].0, caps[i as int].1));
                    return false;
                },
            }
            i = i + 1;
        }
        if !is_mapping(capabilities) {
            return false;
        }
        let r = self.store.attach_capabilities(module_id, capabilities);
        cache_invalidate(&mut self.modules, module_id);
        r
    }

    /// Removes a stored module; its cached environment, if any, is discarded.
    pub fn delete(&mut self, module_id: &str) -> (r: bool)
        requires
            old(self).wf(),
        ensures
            final(self).wf(),
            final(self).reliable() == old(self).reliable(),
            removed(old(self).stored(), module_id@, r, final(self).stored()),
            old(self).reliable() && old(self).stored().contains_key(module_id@) ==> r,
    {
        let r = self.store.delete(module_id);
        cache_invalidate(&mut self.modules, module_id);
        r
    }

    /// The environment for `module_id`: the cached one, else one compiled
    /// from the store and cached. Nothing where no module is stored under
    /// `module_id`, its capability configuration is invalid, or its binary
    /// does not compile; the cache is then left as it was.
    pub fn resolve(&mut self, module_id: &str) -> (r: Option<EnvironmentRef>)
        requires
            old(self).wf(),
        ensures
            final(self).wf(),
            final(self).stored() == old(self).stored(),
            final(self).reliable() == old(self).reliable(),
            resolved(old(self).stored(), module_id@, r),
            !old(self).stored().contains_key(module_id@) ==> r is None,
            old(self).stored().contains_key(module_id@) && !all_valid(old(self).stored()[module_id@].2) ==> r is None,
            r matches Some(e) ==> final(self).cache() == old(self).cache().insert(module_id@, e),
            r is None ==> final(self).cache() == old(self).cache(),
    {
        proof {
            lemma_valid_if_matches(old(self).stored(), module_id@);
        }
        match cache_get(&self.modules, module_id) {
            Some(env) => {
                assert(old(self).cache().insert(module_id@, env) =~= old(self).cache());
                Some(env)
            },
            None => self.register(module_id),
        }
    }

    /// The cached environment of `module_id`, if the cache serves one; the
    /// first half of a resolution that compiles outside any lock.
    pub fn lookup(&self, module_id: &str) -> (r: Option<EnvironmentRef>)
        requires
            self.wf(),
        ensures
            resolved(self.stored(), module_id@, r),
            r matches Some(e) ==> self.cache().contains_key(module_id@) && self.cache()[module_id@] == e,
    {
        cache_get(&self.modules, module_id)
    }

    /// The second half of a resolution that compiles outside any lock:
    /// `binary` is the binary of `module_id` as retrieved earlier, and
    /// `compiled` what compiling it gave. The module is retrieved again; where
    /// it still holds that binary, the environment built from it is cached and
    /// returned. Nothing, and the cache left as it was, where retrieval fails,
    /// the binary changed meanwhile, or no environment can be built.
    pub fn install(&mut self, module_id: &str, binary: &Vec<u8>, compiled: Option<(Engine, Module)>) -> (r: Option<
        EnvironmentRef,
    >)
        requires
            old(self).wf(),
        ensures
            final(self).wf(),
            final(self).stored() == old(self).stored(),
            final(self).reliable() == old(self).reliable(),
            resolved(old(self).stored(), module_id@, r),
            r is Some ==> old(self).stored()[module_id@].0 == binary@,
            old(self).stored().contains_key(module_id@) && !all_valid(old(self).stored()[module_id@].2) ==> r is None,
            compiled is None ==> r is None,
            r matches Some(e) ==> final(self).cache() == old(self).cache().insert(module_id@, e),
            r is None ==> final(self).cache() == old(self).cache(),
    {
        let stored = match self.store.retrieve(module_id) {
            None => {
                return None;
            },
            Some(m) => m,
        };
        if !same_bytes(&stored.binary, binary) {
            return None;
        }
        let env = match environment_of(stored, compiled) {
            None => {
                return None;
            },
            Some(e) => Arc::new(e),
        };
        let cached_env = share(&env);
        cache_insert(&mut self.modules, module_id.to_owned(), cached_env);
        Some(env)
    }

    /// Retrieves the module `module_id`, compiles it, and caches the
    /// environment built from it. Nothing, and the cache left as it was,
    /// where retrieval fails or no environment can be built.
    fn register(&mut self, module_id: &str) -> (r: Option<EnvironmentRef>)
        requires
            old(self).wf(),
        ensures
            final(self).wf(),
            final(self).stored() == old(self).stored(),
            final(self).reliable() == old(self).reliable(),
            resolved(old(self).stored(), module_id@, r),
            r matches Some(e) ==> final(self).cache() == old(self).cache().insert(module_id@, e),
            r is None ==> final(self).cache() == old(self).cache(),
    {
        let stored = match self.store.retrieve(module_id) {
            None => {
                return None;
            },
            Some(m) => m,
        };
        let ghost m = stored@;
        let compiled = compile(&stored.binary);
        let env = match environment_of(stored, compiled) {
            None => {
                return None;
            },
            Some(e) => Arc::new(e),
        };
        let cached_env = share(&env);
        cache_insert(&mut self.modules, module_id.to_owned(), cached_env);
        Some(env)
    }
}

/// Whether two byte buffers hold the same bytes.
fn same_bytes(a: &Vec<u8>, b: &Vec<u8>) -> (r: bool)
    ensures
        r == (a@ == b@),
{
    if a.len() != b.len() {
        return false;
    }
    let mut i: usize = 0;
    while i < a.len()
        invariant
            i <= a.len(),
            a@.len() == b@.len(),
            a@.subrange(0, i as int) == b@.subrange(0, i as int),
        decreases a.len() - i,
    {
        if a[i] != b[i] {
            assert(a@[i as int] != b@[i as int]);
            return false;
        }
        assert(a@.subrange(0, i + 1) =~= a@.subrange(0, i as int).push(a@[i as int]));
        assert(b@.subrange(0, i + 1) =~= b@.subrange(0, i as int).push(b@[i as int]));
        i = i + 1;
    }
    assert(a@ =~= a@.subrange(0, i as int));
    assert(b@ =~= b@.subrange(0, i as int));
    true
}

/// The environment of the retrieved module `m`, given the outcome of
/// compiling its binary: the compiled code, its variables, and one capability
/// built from each capability entry. Nothing where the binary did not compile
/// or an entry is invalid.
pub fn environment_of(m: StoredModule, compiled: Option<(Engine, Module)>) -> (r: Option<Environment>)
    ensures
        r is Some <==> (compiled is Some && all_valid(m@.2)),
        r matches Some(e) ==> env_matches(e, m@),
        r matches Some(e) ==> (compiled matches Some(c) && e.engine == c.0 && e.module == c.1),
{
    let ghost mv = m@;
    let (engine, module) = match compiled {
        None => {
            return None;
        },
        Some(c) => c,
    };
    let mut caps: Vec<Capability> = Vec::new();
    let mut i: usize = 0;
    while i < m.capabilities.len()
        invariant
            i <= m.capabilities.len(),
            mv == m@,
            caps@.len() == i,
            forall|j: int| 0 <= j < i ==> #[trigger] valid_config(mv.2[j].0, mv.2[j].1),
            forall|j: int|
                0 <= j < i ==> config_outcome(
                    mv.2[j].0,
                    mv.2[j].1,
                    Ok::<Capability, CapabilityInitError>(#[trigger] caps@[j]),
                ),
        decreases m.capabilities.len() - i,
    {
        assert(mv.2[i as int] == (m.capabilities@[i as int].0@, m.capabilities@[i as int].1.deep_view()));
        match Capability::from_config(m.capabilities[i].0.as_str(), &m.capabilities[i].1) {
            Ok(c) => {
                caps.push(c);
            },
            Err(_) => {
                assert(!valid_config(mv.2[i as int].0, mv.2[i as int].1));
                return None;
            },
        }
        i = i + 1;
    }
    let env = Environment { engine, module, variables: m.variables, capabilities: caps };
    assert(env_matches(env, mv));
    Some(env)
}

} // verus!

verus! {

/// Storing never overwrites: once a binary is stored under `id`, storing
/// another under `id` fails, leaves the store as it was, and retrieval still
/// yields the first binary.
pub proof fn lemma_no_overwrite(
    s0: StoreView,
    s1: StoreView,
    s2: StoreView,
    id: Seq<char>,
    first: Seq<u8>,
    second: Seq<u8>,
    r: bool,
    got: ModuleView,
)
    requires
        added(s0, id, first, true, s1),
        added(s1, id, second, r, s2),
        retrieved(s2, id, Some(got)),
    ensures
        !r,
        s2 == s1,
        s2.contains_key(id),
        s2[id].0 == first,
        got.0 == first,
{
}

/// Attaching a capability configuration that names an unknown capability is
/// rejected: the configuration is not valid, so the store is not written.
pub proof fn lemma_unknown_capability_rejected(caps: CapsView, i: int)
    requires
        0 <= i < caps.len(),
        caps[i].0 != crate::capability::MONGO_NAME@,
    ensures
        !all_valid(caps),
{
    assert(!valid_config(caps[i].0, caps[i].1));
}

/// Resolution after attaching variables serves the new variables, never the
/// environment compiled before the attachment.
pub proof fn lemma_resolve_after_attach(
    s0: StoreView,
    s1: StoreView,
    id: Seq<char>,
    vars: VarsView,
    env: EnvironmentRef,
)
    requires
        vars_attached(s0, id, vars, true, s1),
        resolved(s1, id, Some(env)),
    ensures
        env.variables.deep_view() == vars,
{
}

/// Resolution after a successful delete finds nothing.
pub proof fn lemma_resolve_after_delete(s0: StoreView, s1: StoreView, id: Seq<char>, r: Option<EnvironmentRef>)
    requires
        removed(s0, id, true, s1),
        resolved(s1, id, r),
    ensures
        r is None,
{
}

} // verus!
