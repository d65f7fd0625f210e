//! Persistence of modules: the interface that a store fulfils, and a store
//! that keeps its modules in memory.
use vstd::prelude::*;

verus! {

/// Environment variables: ordered (name, value) pairs.
pub type VarsView = Seq<(Seq<char>, Seq<char>)>;

/// Capability configuration: capability name and its configuration fields.
pub type CapsView = Seq<(Seq<char>, VarsView)>;

/// A stored module: its binary, variables and capability configuration.
pub type ModuleView = (Seq<u8>, VarsView, CapsView);

/// Stored modules by module id.
pub type StoreView = Map<Seq<char>, ModuleView>;

/// A module as a store holds it.
pub struct StoredModule {
    pub binary: Vec<u8>,
    pub variables: Vec<(String, String)>,
    pub capabilities: Vec<(String, Vec<(String, String)>)>,
}

impl View for StoredModule {
    type V = ModuleView;

    open spec fn view(&self) -> ModuleView {
        (self.binary@, self.variables.deep_view(), self.capabilities.deep_view())
    }
}

/// A freshly stored module: its binary, with no variables and no capabilities.
pub open spec fn fresh_module(binary: Seq<u8>) -> ModuleView {
    (binary, Seq::empty(), Seq::empty())
}

/// Storing `binary` under `id` never overwrites: it fails when `id` is taken,
/// and otherwise either adds a fresh module or fails leaving the store as it was.
pub open spec fn added(before: StoreView, id: Seq<char>, binary: Seq<u8>, r: bool, after: StoreView) -> bool {
    if before.contains_key(id) {
        !r && after == before
    } else if r {
        after == before.insert(id, fresh_module(binary))
    } else {
        after == before
    }
}

/// Attaching variables replaces those of an existing module and nothing else;
/// a failure leaves the store as it was.
pub open spec fn vars_attached(before: StoreView, id: Seq<char>, vars: VarsView, r: bool, after: StoreView) -> bool {
    if r {
        &&& before.contains_key(id)
        &&& after == before.insert(id, (before[id].0, vars, before[id].2))
    } else {
        after == before
    }
}

/// Attaching capabilities replaces those of an existing module and nothing
/// else; a failure leaves the store as it was.
pub open spec fn caps_attached(before: StoreView, id: Seq<char>, caps: CapsView, r: bool, after: StoreView) -> bool {
    if r {
        &&& before.contains_key(id)
        &&& after == before.insert(id, (before[id].0, before[id].1, caps))
    } else {
        after == before
    }
}

/// Deleting removes an existing module; a failure leaves the store as it was.
pub open spec fn removed(before: StoreView, id: Seq<char>, r: bool, after: StoreView) -> bool {
    if r {
        before.contains_key(id) && after == before.remove(id)
    } else {
        after == before
    }
}

/// Retrieval yields the module stored under `id`, or nothing; never a module
/// that is not stored.
pub open spec fn retrieved(stored: StoreView, id: Seq<char>, r: Option<ModuleView>) -> bool {
    match r {
        Some(m) => stored.contains_key(id) && m == stored[id],
        None => true,
    }
}

/// Where modules persist. A failure of the medium shows as a `false` or a
/// `None`, and leaves the stored modules as they were.
pub trait Store {
    /// The stored modules. A store must state this to have its calls
    /// reasoned about; one that lives outside verified code (on disk, say)
    /// keeps the default, an unknown constant under which no call is shown to
    /// succeed, and is then only run, never reasoned about.
    open spec fn modules(&self) -> StoreView {
        arbitrary()
    }

    /// What the store needs of its own representation.
    open spec fn inv(&self) -> bool {
        true
    }

    /// The store has no medium that can fail: every call that its arguments
    /// allow succeeds.
    open spec fn never_fails(&self) -> bool {
        false
    }

    /// Stores a new module; never overwrites one.
    fn store(&mut self, module_id: &str, binary: Vec<u8>) -> (r: bool)
        requires
            old(self).inv(),
        ensures
            final(self).inv(),
            final(self).never_fails() == old(self).never_fails(),
            added(old(self).modules(), module_id@, binary@, r, final(self).modules()),
            old(self).never_fails() && !old(self).modules().contains_key(module_id@) ==> r,
    ;

    /// Replaces the variables of a stored module.
    fn attach_variables(&mut self, module_id: &str, variables: &Vec<(String, String)>) -> (r: bool)
        requires
            old(self).inv(),
        ensures
            final(self).inv(),
            final(self).never_fails() == old(self).never_fails(),
            vars_attached(old(self).modules(), module_id@, variables.deep_view(), r, final(self).modules()),
            old(self).never_fails() && old(self).modules().contains_key(module_id@) ==> r,
    ;

    /// Replaces the capability configuration of a stored module.
    fn attach_capabilities(&mut self, module_id: &str, capabilities: &Vec<(String, Vec<(String, String)>)>) -> (r: bool)
        requires
            old(self).inv(),
        ensures
            final(self).inv(),
            final(self).never_fails() == old(self).never_fails(),
            caps_attached(old(self).modules(), module_id@, capabilities.deep_view(), r, final(self).modules()),
            old(self).never_fails() && old(self).modules().contains_key(module_id@) ==> r,
    ;

    /// Removes a stored module.
    fn delete(&mut self, module_id: &str) -> (r: bool)
        requires
            old(self).inv(),
        ensures
            final(self).inv(),
            final(self).never_fails() == old(self).never_fails(),
            removed(old(self).modules(), module_id@, r, final(self).modules()),
            old(self).never_fails() && old(self).modules().contains_key(module_id@) ==> r,
    ;

    /// Reads a stored module.
    fn retrieve(&self, module_id: &str) -> (r: Option<StoredModule>)
        requires
            self.inv(),
        ensures
            retrieved(
                self.modules(),
                module_id@,
                match r {
                    Some(m) => Some(m@),
                    None => None,
                },
            ),
            self.never_fails() && self.modules().contains_key(module_id@) ==> r is Some,
    ;
}

/// The map that a list of (key, value) pairs describes; a later pair wins.
pub open spec fn map_of<K, V>(s: Seq<(K, V)>) -> Map<K, V>
    decreases s.len(),
{
    if s.len() == 0 {
        Map::empty()
    } else {
        map_of(s.drop_last()).insert(s.last().0, s.last().1)
    }
}

/// No key occurs twice.
pub open spec fn unique_keys<K, V>(s: Seq<(K, V)>) -> bool {
    forall|i: int, j: int| 0 <= i < s.len() && 0 <= j < s.len() && i != j ==> s[i].0 != s[j].0
}

proof fn lemma_map_of_contains<K, V>(s: Seq<(K, V)>, k: K)
    ensures
        map_of(s).contains_key(k) <==> exists|i: int| 0 <= i < s.len() && s[i].0 == k,
    decreases s.len(),
{
    if s.len() > 0 {
        let d = s.drop_last();
        lemma_map_of_contains(d, k);
        if map_of(s).contains_key(k) {
            if k == s.last().0 {
                assert(s[s.len() - 1].0 == k);
            } else {
                let i = choose|i: int| 0 <= i < d.len() && d[i].0 == k;
                assert(s[i].0 == k);
            }
        }
        if exists|i: int| 0 <= i < s.len() && s[i].0 == k {
            let i = choose|i: int| 0 <= i < s.len() && s[i].0 == k;
            if i < s.len() - 1 {
                assert(d[i].0 == k);
            }
        }
    }
}

proof fn lemma_map_of_index<K, V>(s: Seq<(K, V)>, i: int)
    requires
        unique_keys(s),
        0 <= i < s.len(),
    ensures
        map_of(s).contains_key(s[i].0),
        map_of(s)[s[i].0] == s[i].1,
    decreases s.len(),
{
    if i < s.len() - 1 {
        let d = s.drop_last();
        assert(s[i].0 != s[s.len() - 1].0);
        assert(d[i] == s[i]);
        lemma_map_of_index(d, i);
    }
}

proof fn lemma_map_of_update<K, V>(s: Seq<(K, V)>, i: int, v: V)
    requires
        unique_keys(s),
        0 <= i < s.len(),
    ensures
        unique_keys(s.update(i, (s[i].0, v))),
        map_of(s.update(i, (s[i].0, v))) == map_of(s).insert(s[i].0, v),
    decreases s.len(),
{
    let t = s.update(i, (s[i].0, v));
    let d = s.drop_last();
    if i == s.len() - 1 {
        assert(t.drop_last() =~= d);
        assert(map_of(t) =~= map_of(s).insert(s[i].0, v));
    } else {
        assert(t.drop_last() =~= d.update(i, (d[i].0, v)));
        lemma_map_of_update(d, i, v);
        assert(s[i].0 != s.last().0);
        assert(map_of(t) =~= map_of(s).insert(s[i].0, v));
    }
}

proof fn lemma_map_of_remove<K, V>(s: Seq<(K, V)>, i: int)
    requires
        unique_keys(s),
        0 <= i < s.len(),
    ensures
        unique_keys(s.remove(i)),
        map_of(s.remove(i)) == map_of(s).remove(s[i].0),
    decreases s.len(),
{
    let t = s.remove(i);
    let d = s.drop_last();
    let k = s[i].0;
    assert forall|a: int, b: int| 0 <= a < t.len() && 0 <= b < t.len() && a != b implies t[a].0 != t[b].0 by {
        let a2 = if a < i { a } else { a + 1 };
        let b2 = if b < i { b } else { b + 1 };
        assert(t[a] == s[a2]);
        assert(t[b] == s[b2]);
    }
    if i == s.len() - 1 {
        assert(t =~= d);
        lemma_map_of_contains(d, k);
        assert forall|j: int| 0 <= j < d.len() implies d[j].0 != k by {
            assert(d[j] == s[j]);
        }
        assert(map_of(t) =~= map_of(s).remove(k));
    } else {
        assert(t.drop_last() =~= d.remove(i));
        assert(t.last() == s.last());
        lemma_map_of_remove(d, i);
        assert(k != s.last().0);
        assert(map_of(t) =~= map_of(s).remove(k));
    }
}

/// No capability is named twice, and no field twice within one capability,
/// so that the configuration is a mapping.
pub open spec fn caps_unique(caps: CapsView) -> bool {
    &&& unique_keys(caps)
    &&& forall|k: int| 0 <= k < caps.len() ==> #[trigger] unique_keys(caps[k].1)
}

/// Whether no name occurs twice among the first components of `v`.
fn keys_unique<T: DeepView>(v: &Vec<(String, T)>) -> (r: bool)
    ensures
        r == unique_keys(v.deep_view()),
{
    let ghost dv = v.deep_view();
    let mut i: usize = 0;
    while i < v.len()
        invariant
            i <= v.len(),
            dv == v.deep_view(),
            forall|a: int, b: int| 0 <= a < i && a < b < dv.len() ==> dv[a].0 != dv[b].0,
        decreases v.len() - i,
    {
        let mut j: usize = i + 1;
        while j < v.len()
            invariant
                i < v.len(),
                i + 1 <= j <= v.len(),
                dv == v.deep_view(),
                forall|a: int, b: int| 0 <= a < i && a < b < dv.len() ==> dv[a].0 != dv[b].0,
                forall|b: int| i < b < j ==> dv[i as int].0 != dv[b].0,
            decreases v.len() - j,
        {
            assert(dv[i as int].0 == v@[i as int].0@);
            assert(dv[j as int].0 == v@[j as int].0@);
            if v[i].0 == v[j].0 {
                return false;
            }
            j = j + 1;
        }
        i = i + 1;
    }
    assert forall|a: int, b: int| 0 <= a < dv.len() && 0 <= b < dv.len() && a != b implies dv[a].0 != dv[b].0 by {
        if b < a {
            assert(dv[b].0 != dv[a].0);
        }
    }
    true
}

/// Whether the capability configuration is a mapping: no capability named
/// twice, and no field twice within one capability.
pub fn is_mapping(caps: &Vec<(String, Vec<(String, String)>)>) -> (r: bool)
    ensures
        r == caps_unique(caps.deep_view()),
{
    let ghost dv = caps.deep_view();
    if !keys_unique(caps) {
        return false;
    }
    let mut k: usize = 0;
    while k < caps.len()
        invariant
            k <= caps.len(),
            dv == caps.deep_view(),
            unique_keys(dv),
            forall|l: int| 0 <= l < k ==> #[trigger] unique_keys(dv[l].1),
        decreases caps.len() - k,
    {
        assert(dv[k as int].1 == caps@[k as int].1.deep_view());
        if !keys_unique(&caps[k].1) {
            return false;
        }
        k = k + 1;
    }
    true
}

/// Copies a list of (name, value) pairs.
fn copy_pairs(v: &Vec<(String, String)>) -> (r: Vec<(String, String)>)
    ensures
        r.deep_view() == v.deep_view(),
{
    let mut r: Vec<(String, String)> = Vec::new();
    let mut i: usize = 0;
    while i < v.len()
        invariant
            i <= v.len(),
            r@.len() == i,
            r.deep_view() =~= v.deep_view().subrange(0, i as int),
        decreases v.len() - i,
    {
        let e = (v[i].0.clone(), v[i].1.clone());
        assert(e.deep_view() == v@[i as int].deep_view());
        r.push(e);
        assert(r@[i as int] == e);
        i = i + 1;
        assert(r.deep_view() =~= v.deep_view().subrange(0, i as int));
    }
    assert(v.deep_view().subrange(0, i as int) =~= v.deep_view());
    r
}

/// Copies a capability configuration.
fn copy_caps(v: &Vec<(String, Vec<(String, String)>)>) -> (r: Vec<(String, Vec<(String, String)>)>)
    ensures
        r.deep_view() == v.deep_view(),
{
    let mut r: Vec<(String, Vec<(String, String)>)> = Vec::new();
    let mut i: usize = 0;
    while i < v.len()
        invariant
            i <= v.len(),
            r@.len() == i,
            r.deep_view() =~= v.deep_view().subrange(0, i as int),
        decreases v.len() - i,
    {
        let e = (v[i].0.clone(), copy_pairs(&v[i].1));
        assert(e.deep_view() == v@[i as int].deep_view());
        r.push(e);
        assert(r@[i as int] == e);
        i = i + 1;
        assert(r.deep_view() =~= v.deep_view().subrange(0, i as int));
    }
    assert(v.deep_view().subrange(0, i as int) =~= v.deep_view());
    r
}

/// Copies a byte buffer.
fn copy_bytes(v: &Vec<u8>) -> (r: Vec<u8>)
    ensures
        r@ == v@,
{
    let mut r: Vec<u8> = Vec::new();
    let mut i: usize = 0;
    while i < v.len()
        invariant
            i <= v.len(),
            r@ =~= v@.subrange(0, i as int),
        decreases v.len() - i,
    {
        r.push(v[i]);
        i = i + 1;
        assert(r@ =~= v@.subrange(0, i as int));
    }
    assert(v@.subrange(0, i as int) =~= v@);
    r
}

impl StoredModule {
    /// A copy of this module.
    pub fn copy(&self) -> (r: StoredModule)
        ensures
            r@ == self@,
    {
        StoredModule {
            binary: copy_bytes(&self.binary),
            variables: copy_pairs(&self.variables),
            capabilities: copy_caps(&self.capabilities),
        }
    }
}

/// A store that keeps its modules in memory, one entry per module id.
pub struct MemoryStore {
    entries: Vec<(String, StoredModule)>,
}

impl MemoryStore {
    /// The entries as (module id, module) pairs.
    pub closed spec fn pairs(&self) -> Seq<(Seq<char>, ModuleView)> {
        Seq::new(self.entries@.len(), |i: int| (self.entries@[i].0@, self.entries@[i].1@))
    }

    /// An empty store.
    pub fn new() -> (r: MemoryStore)
        ensures
            r.inv(),
            r.modules() == StoreView::empty(),
    {
        let r = MemoryStore { entries: Vec::new() };
        assert(r.pairs() =~= Seq::<(Seq<char>, ModuleView)>::empty());
        r
    }

    /// The index of the entry for `id`.
    fn index_of(&self, id: &str) -> (r: Option<usize>)
        ensures
            match r {
                Some(i) => i < self.pairs().len() && self.pairs()[i as int].0 == id@,
                None => !self.modules().contains_key(id@),
            },
    {
        let wanted = id.to_owned();
        let mut i: usize = 0;
        while i < self.entries.len()
            invariant
                i <= self.entries.len(),
                wanted@ == id@,
                forall|j: int| 0 <= j < i ==> self.pairs()[j].0 != id@,
            decreases self.entries.len() - i,
        {
            if self.entries[i].0 == wanted {
                return Some(i);
            }
            i = i + 1;
        }
        proof {
            lemma_map_of_contains(self.pairs(), id@);
        }
        None
    }
}

impl Store for MemoryStore {
    open spec fn modules(&self) -> StoreView {
        map_of(self.pairs())
    }

    open spec fn inv(&self) -> bool {
        unique_keys(self.pairs())
    }

    open spec fn never_fails(&self) -> bool {
        true
    }

    fn store(&mut self, module_id: &str, binary: Vec<u8>) -> (r: bool) {
        match self.index_of(module_id) {
            Some(i) => {
                proof {
                    lemma_map_of_index(self.pairs(), i as int);
                }
                false
            },
            None => {
                let module = StoredModule { binary, variables: Vec::new(), capabilities: Vec::new() };
                let ghost m = module@;
                assert(m == fresh_module(binary@)) by {
                    assert(module.variables.deep_view() =~= Seq::<(Seq<char>, Seq<char>)>::empty());
                    assert(module.capabilities.deep_view() =~= Seq::<(Seq<char>, VarsView)>::empty());
                }
                self.entries.push((module_id.to_owned(), module));
                proof {
                    let p = old(self).pairs();
                    assert(self.pairs() =~= p.push((module_id@, m)));
                    assert(self.pairs().drop_last() =~= p);
                    lemma_map_of_contains(p, module_id@);
                }
                true
            },
        }
    }

    fn attach_variables(&mut self, module_id: &str, variables: &Vec<(String, String)>) -> (r: bool) {
        match self.index_of(module_id) {
            None => false,
            Some(i) => {
                proof {
                    lemma_map_of_index(self.pairs(), i as int);
                    lemma_map_of_update(
                        self.pairs(),
                        i as int,
                        (self.pairs()[i as int].1.0, variables.deep_view(), self.pairs()[i as int].1.2),
                    );
                }
                let vars = copy_pairs(variables);
                let mut entry = self.entries.remove(i);
                entry.1.variables = vars;
                self.entries.insert(i, entry);
                assert(self.pairs() =~= old(self).pairs().update(
                    i as int,
                    (module_id@, (old(self).pairs()[i as int].1.0, variables.deep_view(), old(self).pairs()[i as int].1.2)),
                ));
                true
            },
        }
    }

    fn attach_capabilities(&mut self, module_id: &str, capabilities: &Vec<(String, Vec<(String, String)>)>) -> (r: bool) {
        match self.index_of(module_id) {
            None => false,
            Some(i) => {
                proof {
                    lemma_map_of_index(self.pairs(), i as int);
                    lemma_map_of_update(
                        self.pairs(),
                        i as int,
                        (self.pairs()[i as int].1.0, self.pairs()[i as int].1.1, capabilities.deep_view()),
                    );
                }
                let caps = copy_caps(capabilities);
                let mut entry = self.entries.remove(i);
                entry.1.capabilities = caps;
                self.entries.insert(i, entry);
                assert(self.pairs() =~= old(self).pairs().update(
                    i as int,
                    (module_id@, (old(self).pairs()[i as int].1.0, old(self).pairs()[i as int].1.1, capabilities.deep_view())),
                ));
                true
            },
        }
    }

    fn delete(&mut self, module_id: &str) -> (r: bool) {
        match self.index_of(module_id) {
            None => false,
            Some(i) => {
                proof {
                    lemma_map_of_index(self.pairs(), i as int);
                    lemma_map_of_remove(self.pairs(), i as int);
                }
                let _ = self.entries.remove(i);
                assert(self.pairs() =~= old(self).pairs().remove(i as int));
                true
            },
        }
    }

    fn retrieve(&self, module_id: &str) -> (r: Option<StoredModule>) {
        match self.index_of(module_id) {
            None => None,
            Some(i) => {
                proof {
                    lemma_map_of_index(self.pairs(), i as int);
                }
                Some(self.entries[i].1.copy())
            },
        }
    }
}

} // verus!
