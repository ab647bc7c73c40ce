//! The structural node store: validated nodes held by identifier.
use std::sync::Arc;
use vstd::prelude::*;

use crate::boundary::runtime::share;
use crate::keyed::{
    key_position, keys_distinct, lemma_key_position, lemma_key_position_agree, lemma_key_position_at,
    lemma_key_position_remove,
};
use crate::text::{push_text, string_from};

verus! {

// ---------------------------------------------------------------------------
// Text maps.

/// A map from text keys to text values, entries kept in insertion order.
#[derive(Debug)]
pub struct StringMap {
    entries: Vec<(String, String)>,
}

/// The content of a list of text pairs.
pub open spec fn pairs_view(v: Seq<(String, String)>) -> Seq<(Seq<char>, Seq<char>)> {
    v.map_values(|e: (String, String)| (e.0@, e.1@))
}

/// The keys of a list of text pairs.
pub open spec fn pair_keys(entries: Seq<(Seq<char>, Seq<char>)>) -> Seq<Seq<char>> {
    entries.map_values(|e: (Seq<char>, Seq<char>)| e.0)
}

/// The value held under `k`.
pub open spec fn pair_lookup(entries: Seq<(Seq<char>, Seq<char>)>, k: Seq<char>) -> Option<Seq<char>> {
    match key_position(pair_keys(entries), k, 0) {
        Some(i) => Some(entries[i].1),
        None => None,
    }
}

impl View for StringMap {
    type V = Seq<(Seq<char>, Seq<char>)>;

    /// The entries, in insertion order.
    closed spec fn view(&self) -> Seq<(Seq<char>, Seq<char>)> {
        pairs_view(self.entries@)
    }
}

fn pair_position(entries: &Vec<(String, String)>, key: &String) -> (r: Option<usize>)
    ensures
        match r {
            Some(i) => key_position(pair_keys(pairs_view(entries@)), key@, 0) == Some(i as int) && i < entries@.len(),
            None => key_position(pair_keys(pairs_view(entries@)), key@, 0) is None,
        },
{
    let mut i: usize = 0;
    while i < entries.len()
        invariant
            i <= entries@.len(),
            key_position(pair_keys(pairs_view(entries@)), key@, 0) == key_position(pair_keys(pairs_view(entries@)), key@, i as int),
        decreases entries.len() - i,
    {
        let same: bool = entries[i].0 == *key;
        if same {
            assert(pair_keys(pairs_view(entries@))[i as int] == key@);
            return Some(i);
        }
        assert(pair_keys(pairs_view(entries@))[i as int] != key@);
        i = i + 1;
    }
    None
}

/// Holds `value` under `key` in `entries`, replacing what was held there.
fn insert_pair(entries: &mut Vec<(String, String)>, key: String, value: String)
    ensures
        pair_lookup(pairs_view(final(entries)@), key@) == Some(value@),
        forall|k: Seq<char>| k != key@ ==> #[trigger] pair_lookup(pairs_view(final(entries)@), k)
            == pair_lookup(pairs_view(old(entries)@), k),
        keys_distinct(pair_keys(pairs_view(old(entries)@))) ==> keys_distinct(
            pair_keys(pairs_view(final(entries)@)),
        ),
{
    let ghost before = pairs_view(entries@);
    let ghost kv = key@;
    let ghost vv = value@;
    let found = pair_position(entries, &key);
    match found {
        Some(i) => {
            entries.set(i, (key, value));
            proof {
                let after = pairs_view(entries@);
                assert(after =~= before.update(i as int, (kv, vv)));
                lemma_key_position(pair_keys(before), kv, 0);
                assert forall|j: int| 0 <= j < i implies pair_keys(after)[j] != kv by {
                    assert(pair_keys(after)[j] == pair_keys(before)[j]);
                }
                lemma_key_position_at(pair_keys(after), kv, 0, i as int);
                assert forall|k2: Seq<char>| k2 != kv implies #[trigger] pair_lookup(after, k2) == pair_lookup(before, k2) by {
                    lemma_key_position_agree(pair_keys(before), pair_keys(after), k2, 0);
                    lemma_key_position(pair_keys(before), k2, 0);
                }
                assert(pair_keys(after) =~= pair_keys(before));
            }
        },
        None => {
            entries.push((key, value));
            proof {
                let after = pairs_view(entries@);
                assert(after =~= before.push((kv, vv)));
                lemma_key_position(pair_keys(before), kv, 0);
                assert forall|j: int| 0 <= j < before.len() implies pair_keys(after)[j] != kv by {
                    assert(pair_keys(after)[j] == pair_keys(before)[j]);
                }
                lemma_key_position_at(pair_keys(after), kv, 0, before.len() as int);
                assert forall|k2: Seq<char>| k2 != kv implies #[trigger] pair_lookup(after, k2) == pair_lookup(before, k2) by {
                    lemma_key_position_agree(pair_keys(before), pair_keys(after), k2, 0);
                    lemma_key_position(pair_keys(before), k2, 0);
                }
                if keys_distinct(pair_keys(before)) {
                    assert forall|a: int, b: int| 0 <= a < b < pair_keys(after).len() implies #[trigger] pair_keys(after)[a]
                        != #[trigger] pair_keys(after)[b] by {
                        if b < before.len() {
                            assert(pair_keys(before)[a] != pair_keys(before)[b]);
                        } else {
                            assert(pair_keys(after)[a] == pair_keys(before)[a]);
                        }
                    }
                }
            }
        },
    }
}

impl Clone for StringMap {
    fn clone(&self) -> (r: Self)
        ensures
            r@ == self@,
    {
        self.duplicate()
    }
}

impl StringMap {
    #[verifier::type_invariant]
    spec fn keys_unique(self) -> bool {
        keys_distinct(pair_keys(self@))
    }

    /// The value held under `k`.
    pub open spec fn lookup(&self, k: Seq<char>) -> Option<Seq<char>> {
        pair_lookup(self@, k)
    }

    pub fn new() -> (r: Self)
        ensures
            r@.len() == 0,
            forall|k: Seq<char>| #[trigger] r.lookup(k) is None,
    {
        let r = StringMap { entries: Vec::new() };
        assert(pair_keys(r@) =~= Seq::empty());
        r
    }

    fn position(&self, key: &str) -> (r: Option<usize>)
        ensures
            match r {
                Some(i) => key_position(pair_keys(self@), key@, 0) == Some(i as int) && i < self@.len(),
                None => key_position(pair_keys(self@), key@, 0) is None,
            },
    {
        let k = string_from(key);
        let mut i: usize = 0;
        while i < self.entries.len()
            invariant
                i <= self.entries@.len(),
                k@ == key@,
                key_position(pair_keys(self@), key@, 0) == key_position(pair_keys(self@), key@, i as int),
            decreases self.entries.len() - i,
        {
            let same: bool = self.entries[i].0 == k;
            if same {
                assert(pair_keys(self@)[i as int] == key@);
                return Some(i);
            }
            assert(pair_keys(self@)[i as int] != key@);
            i = i + 1;
        }
        None
    }

    /// The value held under `key`.
    pub fn get(&self, key: &str) -> (r: Option<&String>)
        ensures
            match r {
                Some(v) => self.lookup(key@) == Some(v@),
                None => self.lookup(key@) is None,
            },
    {
        match self.position(key) {
            Some(i) => Some(&self.entries[i].1),
            None => None,
        }
    }

    /// Holds `value` under `key`; returns the value held there before.
    pub fn insert(&mut self, key: String, value: String) -> (r: Option<String>)
        ensures
            final(self).lookup(key@) == Some(value@),
            forall|k: Seq<char>| k != key@ ==> #[trigger] final(self).lookup(k) == old(self).lookup(k),
            match r {
                Some(v) => old(self).lookup(key@) == Some(v@),
                None => old(self).lookup(key@) is None,
            },
    {
        proof {
            use_type_invariant(&*self);
        }
        let old_value = match self.position(key.as_str()) {
            Some(i) => Some(self.entries[i].1.clone()),
            None => None,
        };
        let mut entries: Vec<(String, String)> = Vec::new();
        proof {
            assert(pair_keys(pairs_view(entries@)) =~= Seq::empty());
        }
        std::mem::swap(&mut entries, &mut self.entries);
        insert_pair(&mut entries, key, value);
        self.entries = entries;
        old_value
    }

    /// Holds every entry of `other` here, replacing what is held under its keys.
    pub fn merge_from(&mut self, other: &StringMap)
        ensures
            forall|k: Seq<char>| #[trigger] final(self).lookup(k) == match other.lookup(k) {
                Some(v) => Some(v),
                None => old(self).lookup(k),
            },
    {
        proof {
            use_type_invariant(other);
        }
        let ghost ov = other@;
        let mut i: usize = 0;
        while i < other.entries.len()
            invariant
                i <= other.entries@.len(),
                ov == other@,
                keys_distinct(pair_keys(ov)),
                forall|k: Seq<char>| #[trigger] self.lookup(k) == match pair_lookup(ov.take(i as int), k) {
                    Some(v) => Some(v),
                    None => old(self).lookup(k),
                },
            decreases other.entries.len() - i,
        {
            let key = other.entries[i].0.clone();
            let value = other.entries[i].1.clone();
            let ghost kv = key@;
            self.insert(key, value);
            proof {
                let pre = ov.take(i as int);
                let post = ov.take(i + 1);
                assert(post =~= pre.push(ov[i as int]));
                assert(ov[i as int] == (kv, other.entries@[i as int].1@));
                lemma_key_position(pair_keys(pre), kv, 0);
                assert forall|j: int| 0 <= j < pre.len() implies pair_keys(pre)[j] != kv by {
                    assert(pair_keys(pre)[j] == pair_keys(ov)[j]);
                    assert(pair_keys(ov)[i as int] == kv);
                }
                assert(pair_keys(post) =~= pair_keys(pre).push(kv));
                lemma_key_position_at(pair_keys(post), kv, 0, pre.len() as int);
                assert forall|k: Seq<char>| k != kv implies #[trigger] pair_lookup(post, k) == pair_lookup(pre, k) by {
                    lemma_key_position_agree(pair_keys(pre), pair_keys(post), k, 0);
                    lemma_key_position(pair_keys(pre), k, 0);
                    if key_position(pair_keys(pre), k, 0) is Some {
                        let p = key_position(pair_keys(pre), k, 0)->0;
                        assert(post[p] == pre[p]);
                    }
                }
            }
            i = i + 1;
        }
        proof {
            assert(ov.take(ov.len() as int) =~= ov);
        }
    }

    /// A copy with the same entries.
    pub fn duplicate(&self) -> (r: Self)
        ensures
            r@ == self@,
    {
        proof {
            use_type_invariant(self);
        }
        let mut entries: Vec<(String, String)> = Vec::new();
        let mut i: usize = 0;
        while i < self.entries.len()
            invariant
                i <= self.entries@.len(),
                pairs_view(entries@) =~= self@.take(i as int),
            decreases self.entries.len() - i,
        {
            let ghost before = pairs_view(entries@);
            entries.push((self.entries[i].0.clone(), self.entries[i].1.clone()));
            assert(pairs_view(entries@) =~= before.push(self@[i as int]));
            assert(self@.take(i + 1) =~= self@.take(i as int).push(self@[i as int]));
            i = i + 1;
        }
        assert(pairs_view(entries@) =~= self@);
        StringMap { entries }
    }
}

// ---------------------------------------------------------------------------
// Nodes.

/// Why a node was refused.
#[derive(Debug, Clone)]
pub enum ValidationError {
    InvalidId(String),
    HierarchyError(String),
    MissingField(String),
}

/// The content of a `ValidationError`.
pub enum NodeErrorView {
    InvalidId(Seq<char>),
    HierarchyError(Seq<char>),
    MissingField(Seq<char>),
}

impl View for ValidationError {
    type V = NodeErrorView;

    open spec fn view(&self) -> NodeErrorView {
        match self {
            ValidationError::InvalidId(m) => NodeErrorView::InvalidId(m@),
            ValidationError::HierarchyError(m) => NodeErrorView::HierarchyError(m@),
            ValidationError::MissingField(m) => NodeErrorView::MissingField(m@),
        }
    }
}

/// The text that `Display` shows for an error.
pub open spec fn node_error_text(e: NodeErrorView) -> Seq<char> {
    match e {
        NodeErrorView::InvalidId(m) => "Invalid node ID: "@ + m,
        NodeErrorView::HierarchyError(m) => "Hierarchy violation: "@ + m,
        NodeErrorView::MissingField(m) => "Missing required field: "@ + m,
    }
}

impl ValidationError {
    /// The text that `Display` shows.
    pub fn message(&self) -> (s: String)
        ensures
            s@ == node_error_text(self@),
    {
        let (mut s, m) = match self {
            ValidationError::InvalidId(m) => (string_from("Invalid node ID: "), m),
            ValidationError::HierarchyError(m) => (string_from("Hierarchy violation: "), m),
            ValidationError::MissingField(m) => (string_from("Missing required field: "), m),
        };
        push_text(&mut s, m.as_str());
        s
    }
}

/// A node of the structural hierarchy.
#[derive(Clone, Debug)]
pub struct Node {
    pub id: String,
    pub parent_id: Option<String>,
    pub metadata: StringMap,
    pub properties: StringMap,
    pub version: u64,
}

/// The content of a `Node`.
pub struct NodeView {
    pub id: Seq<char>,
    pub parent_id: Option<Seq<char>>,
    pub metadata: Seq<(Seq<char>, Seq<char>)>,
    pub properties: Seq<(Seq<char>, Seq<char>)>,
    pub version: u64,
}

impl View for Node {
    type V = NodeView;

    open spec fn view(&self) -> NodeView {
        NodeView {
            id: self.id@,
            parent_id: match self.parent_id {
                Some(p) => Some(p@),
                None => None,
            },
            metadata: self.metadata@,
            properties: self.properties@,
            version: self.version,
        }
    }
}

/// Why `validate` refuses a node, or `None`.
pub open spec fn node_error(n: NodeView) -> Option<NodeErrorView> {
    if n.id.len() == 0 {
        Some(NodeErrorView::InvalidId("Node ID cannot be empty"@))
    } else if n.parent_id == Some(n.id) {
        Some(NodeErrorView::HierarchyError("Node cannot be its own parent"@))
    } else {
        None
    }
}

impl Node {
    /// A node with no metadata or properties, at version zero.
    pub fn new(id: String, parent_id: Option<String>) -> (r: Self)
        ensures
            r.id == id,
            r.parent_id == parent_id,
            r@.metadata.len() == 0,
            r@.properties.len() == 0,
            r.version == 0,
    {
        Node { id, parent_id, metadata: StringMap::new(), properties: StringMap::new(), version: 0 }
    }

    /// A node needs an identifier and may not be its own parent.
    pub fn validate(&self) -> (r: Result<(), ValidationError>)
        ensures
            match r {
                Ok(()) => node_error(self@) is None,
                Err(e) => node_error(self@) == Some(e@),
            },
    {
        if self.id.as_str().is_empty() {
            return Err(ValidationError::InvalidId(string_from("Node ID cannot be empty")));
        }
        let own_parent: bool = match &self.parent_id {
            Some(p) => *p == self.id,
            None => false,
        };
        if own_parent {
            return Err(ValidationError::HierarchyError(string_from("Node cannot be its own parent")));
        }
        Ok(())
    }

    /// A copy with the same content.
    pub fn duplicate(&self) -> (r: Self)
        ensures
            r@ == self@,
    {
        Node {
            id: self.id.clone(),
            parent_id: match &self.parent_id {
                Some(p) => Some(p.clone()),
                None => None,
            },
            metadata: self.metadata.duplicate(),
            properties: self.properties.duplicate(),
            version: self.version,
        }
    }
}

// ---------------------------------------------------------------------------
// The node store.

/// Nodes held by identifier, each identifier once. Each write validates the
/// node first; a refused write leaves the store as it was.
pub struct StructuralFactoryImpl {
    storage: Vec<(String, Arc<Node>)>,
}

/// The content of the store's entries: each node with the identifier it is held under.
pub open spec fn entries_view(storage: Seq<(String, Arc<Node>)>) -> Seq<(Seq<char>, NodeView)> {
    storage.map_values(|e: (String, Arc<Node>)| (e.0@, (*e.1)@))
}

/// The keys of the store's entries.
pub open spec fn store_keys(entries: Seq<(Seq<char>, NodeView)>) -> Seq<Seq<char>> {
    entries.map_values(|e: (Seq<char>, NodeView)| e.0)
}

/// The node held under `id`.
pub open spec fn store_lookup(entries: Seq<(Seq<char>, NodeView)>, id: Seq<char>) -> Option<NodeView> {
    match key_position(store_keys(entries), id, 0) {
        Some(i) => Some(entries[i].1),
        None => None,
    }
}

/// Every node of the entries passes `validate`.
pub open spec fn all_valid(entries: Seq<(Seq<char>, NodeView)>) -> bool {
    forall|i: int| 0 <= i < entries.len() ==> node_error(#[trigger] entries[i].1) is None
}

/// `InvalidId("Node <id> <what>")`.
pub open spec fn id_error(id: Seq<char>, what: Seq<char>) -> NodeErrorView {
    NodeErrorView::InvalidId("Node "@ + id + what)
}

fn id_error_exec(id: &str, what: &str) -> (e: ValidationError)
    ensures
        e@ == id_error(id@, what@),
{
    let mut m = string_from("Node ");
    push_text(&mut m, id);
    push_text(&mut m, what);
    ValidationError::InvalidId(m)
}

fn entry_position(storage: &Vec<(String, Arc<Node>)>, id: &str) -> (r: Option<usize>)
    ensures
        match r {
            Some(i) => key_position(store_keys(entries_view(storage@)), id@, 0) == Some(i as int)
                && i < storage@.len(),
            None => key_position(store_keys(entries_view(storage@)), id@, 0) is None,
        },
{
    let k = string_from(id);
    let mut i: usize = 0;
    while i < storage.len()
        invariant
            i <= storage@.len(),
            k@ == id@,
            key_position(store_keys(entries_view(storage@)), id@, 0) == key_position(
                store_keys(entries_view(storage@)),
                id@,
                i as int,
            ),
        decreases storage.len() - i,
    {
        let same: bool = storage[i].0 == k;
        if same {
            assert(store_keys(entries_view(storage@))[i as int] == id@);
            return Some(i);
        }
        assert(store_keys(entries_view(storage@))[i as int] != id@);
        i = i + 1;
    }
    None
}

/// Holds `node` under `key` in `storage`, replacing what was held there.
fn put_entry(storage: &mut Vec<(String, Arc<Node>)>, key: String, node: Arc<Node>)
    requires
        node_error(node@) is None,
    ensures
        all_valid(entries_view(old(storage)@)) ==> all_valid(entries_view(final(storage)@)),
        store_lookup(entries_view(final(storage)@), key@) == Some(node@),
        forall|k: Seq<char>| k != key@ ==> #[trigger] store_lookup(entries_view(final(storage)@), k)
            == store_lookup(entries_view(old(storage)@), k),
        keys_distinct(store_keys(entries_view(old(storage)@))) ==> keys_distinct(
            store_keys(entries_view(final(storage)@)),
        ),
{
    let ghost before = entries_view(storage@);
    let ghost kv = key@;
    let ghost nv = node@;
    match entry_position(storage, key.as_str()) {
        Some(i) => {
            storage.set(i, (key, node));
            proof {
                let after = entries_view(storage@);
                assert(after =~= before.update(i as int, (kv, nv)));
                lemma_key_position(store_keys(before), kv, 0);
                assert forall|j: int| 0 <= j < i implies store_keys(after)[j] != kv by {
                    assert(store_keys(after)[j] == store_keys(before)[j]);
                }
                lemma_key_position_at(store_keys(after), kv, 0, i as int);
                assert forall|k: Seq<char>| k != kv implies #[trigger] store_lookup(after, k) == store_lookup(before, k) by {
                    lemma_key_position_agree(store_keys(before), store_keys(after), k, 0);
                    lemma_key_position(store_keys(before), k, 0);
                }
                assert(store_keys(after) =~= store_keys(before));
            }
        },
        None => {
            storage.push((key, node));
            proof {
                let after = entries_view(storage@);
                assert(after =~= before.push((kv, nv)));
                lemma_key_position(store_keys(before), kv, 0);
                assert forall|j: int| 0 <= j < before.len() implies store_keys(after)[j] != kv by {
                    assert(store_keys(after)[j] == store_keys(before)[j]);
                }
                lemma_key_position_at(store_keys(after), kv, 0, before.len() as int);
                assert forall|k: Seq<char>| k != kv implies #[trigger] store_lookup(after, k) == store_lookup(before, k) by {
                    lemma_key_position_agree(store_keys(before), store_keys(after), k, 0);
                    lemma_key_position(store_keys(before), k, 0);
                }
                if keys_distinct(store_keys(before)) {
                    assert forall|a: int, b: int| 0 <= a < b < store_keys(after).len() implies #[trigger] store_keys(after)[a]
                        != #[trigger] store_keys(after)[b] by {
                        if b < before.len() {
                            assert(store_keys(before)[a] != store_keys(before)[b]);
                        } else {
                            assert(store_keys(after)[a] == store_keys(before)[a]);
                        }
                    }
                }
            }
        },
    }
}

impl View for StructuralFactoryImpl {
    type V = Seq<(Seq<char>, NodeView)>;

    /// The entries: each node with the identifier it is held under.
    closed spec fn view(&self) -> Seq<(Seq<char>, NodeView)> {
        entries_view(self.storage@)
    }
}

impl StructuralFactoryImpl {
    #[verifier::type_invariant]
    spec fn keys_unique(self) -> bool {
        &&& keys_distinct(store_keys(entries_view(self.storage@)))
        &&& all_valid(entries_view(self.storage@))
    }

    /// The node held under `id`.
    pub open spec fn lookup(&self, id: Seq<char>) -> Option<NodeView> {
        store_lookup(self@, id)
    }

    /// An empty store.
    pub fn new() -> (r: Self)
        ensures
            forall|id: Seq<char>| #[trigger] r.lookup(id) is None,
    {
        let r = StructuralFactoryImpl { storage: Vec::new() };
        assert(store_keys(entries_view(r.storage@)) =~= Seq::empty());
        r
    }

    /// Holds `node` under `key`, replacing what was held there.
    fn put(&mut self, key: String, node: Arc<Node>)
        requires
            node_error(node@) is None,
        ensures
            final(self).lookup(key@) == Some(node@),
            forall|k: Seq<char>| k != key@ ==> #[trigger] final(self).lookup(k) == old(self).lookup(k),
    {
        proof {
            use_type_invariant(&*self);
        }
        let mut storage: Vec<(String, Arc<Node>)> = Vec::new();
        proof {
            assert(store_keys(entries_view(storage@)) =~= Seq::empty());
        }
        std::mem::swap(&mut storage, &mut self.storage);
        put_entry(&mut storage, key, node);
        self.storage = storage;
    }

    /// Adds a valid node under its identifier; refuses an invalid node, and an
    /// identifier already held.
    pub fn create(&mut self, node: Node) -> (r: Result<Arc<Node>, ValidationError>)
        ensures
            match r {
                Ok(created) => {
                    &&& node_error(node@) is None
                    &&& old(self).lookup(node@.id) is None
                    &&& created@ == node@
                    &&& final(self).lookup(node@.id) == Some(node@)
                    &&& forall|k: Seq<char>| k != node@.id ==> #[trigger] final(self).lookup(k) == old(self).lookup(k)
                },
                Err(e) => {
                    &&& final(self)@ == old(self)@
                    &&& e@ == match node_error(node@) {
                        Some(ne) => ne,
                        None => id_error(node@.id, " already exists"@),
                    }
                    &&& (node_error(node@) is Some || old(self).lookup(node@.id) is Some)
                },
            },
    {
        node.validate()?;
        if entry_position(&self.storage, node.id.as_str()).is_some() {
            proof {
                lemma_key_position(store_keys(self@), node@.id, 0);
            }
            return Err(id_error_exec(node.id.as_str(), " already exists"));
        }
        let key = node.id.clone();
        let node_arc = Arc::new(node);
        let stored = share(&node_arc);
        self.put(key, stored);
        Ok(node_arc)
    }

    /// The node held under `id`.
    pub fn query(&self, id: &str) -> (r: Result<Option<Arc<Node>>, ValidationError>)
        ensures
            r is Ok,
            match r {
                Ok(Some(n)) => self.lookup(id@) == Some(n@) && node_error(n@) is None,
                Ok(None) => self.lookup(id@) is None,
                Err(_) => false,
            },
    {
        proof {
            use_type_invariant(self);
        }
        match entry_position(&self.storage, id) {
            Some(i) => {
                proof {
                    lemma_key_position(store_keys(self@), id@, 0);
                    assert(node_error(entries_view(self.storage@)[i as int].1) is None);
                }
                Ok(Some(share(&self.storage[i].1)))
            },
            None => Ok(None),
        }
    }

    /// Applies `update_fn` to a copy of the node held under `id` and holds the
    /// result under `id` when it is valid.
    pub fn update<F: FnOnce(Node) -> Node>(&mut self, id: &str, update_fn: F) -> (r: Result<Arc<Node>, ValidationError>)
        requires
            forall|n: Node| #[trigger] update_fn.requires((n,)),
        ensures
            match old(self).lookup(id@) {
                None => r is Err && r->Err_0@ == id_error(id@, " not found"@) && final(self)@ == old(self)@,
                Some(current) => exists|input: Node, output: Node| {
                    &&& input@ == current
                    &&& #[trigger] update_fn.ensures((input,), output)
                    &&& match r {
                        Ok(updated) => {
                            &&& node_error(output@) is None
                            &&& updated@ == output@
                            &&& final(self).lookup(id@) == Some(output@)
                            &&& forall|k: Seq<char>| k != id@ ==> #[trigger] final(self).lookup(k) == old(self).lookup(k)
                        },
                        Err(e) => node_error(output@) == Some(e@) && final(self)@ == old(self)@,
                    }
                },
            },
    {
        let i = match entry_position(&self.storage, id) {
            Some(i) => i,
            None => {
                return Err(id_error_exec(id, " not found"));
            },
        };
        proof {
            lemma_key_position(store_keys(self@), id@, 0);
        }
        let input = self.storage[i].1.duplicate();
        let ghost input_view = input;
        let output = update_fn(input);
        match output.validate() {
            Err(e) => {
                return Err(e);
            },
            Ok(()) => {},
        }
        let ghost out_view = output;
        let node_arc = Arc::new(output);
        let stored = share(&node_arc);
        self.put(string_from(id), stored);
        assert(update_fn.ensures((input_view,), out_view));
        Ok(node_arc)
    }

    /// Removes the node held under `id`.
    pub fn delete(&mut self, id: &str) -> (r: Result<(), ValidationError>)
        ensures
            match old(self).lookup(id@) {
                None => r is Err && r->Err_0@ == id_error(id@, " not found"@) && final(self)@ == old(self)@,
                Some(_) => {
                    &&& r is Ok
                    &&& final(self).lookup(id@) is None
                    &&& forall|k: Seq<char>| k != id@ ==> #[trigger] final(self).lookup(k) == old(self).lookup(k)
                },
            },
    {
        proof {
            use_type_invariant(&*self);
        }
        let i = match entry_position(&self.storage, id) {
            Some(i) => i,
            None => {
                return Err(id_error_exec(id, " not found"));
            },
        };
        let mut storage: Vec<(String, Arc<Node>)> = Vec::new();
        proof {
            assert(store_keys(entries_view(storage@)) =~= Seq::empty());
        }
        std::mem::swap(&mut storage, &mut self.storage);
        let ghost before_storage = storage@;
        let ghost before = entries_view(storage@);
        storage.remove(i);
        proof {
            let after = entries_view(storage@);
            assert(after =~= before.remove(i as int));
            assert(store_keys(after) =~= store_keys(before).remove(i as int));
            lemma_key_position(store_keys(before), id@, 0);
            assert forall|j: int| 0 <= j < store_keys(after).len() implies store_keys(after)[j] != id@ by {
                if j < i {
                    assert(store_keys(before)[j] != store_keys(before)[i as int]);
                } else {
                    assert(store_keys(before)[j + 1] != store_keys(before)[i as int]);
                }
            }
            lemma_key_position(store_keys(after), id@, 0);
            assert forall|k: Seq<char>| k != id@ implies #[trigger] store_lookup(after, k) == store_lookup(before, k) by {
                lemma_key_position_remove(store_keys(before), i as int, k);
                lemma_key_position(store_keys(before), k, 0);
                match key_position(store_keys(before), k, 0) {
                    Some(p) => {
                        if p < i as int {
                            assert(after[p] == before[p]);
                        } else {
                            assert(p != i as int);
                            assert(after[p - 1] == before[p]);
                        }
                    },
                    None => {},
                }
            }
            assert forall|j: int| 0 <= j < after.len() implies node_error(#[trigger] after[j].1) is None by {
                if j < i {
                    assert(after[j] == before[j]);
                } else {
                    assert(after[j] == before[j + 1]);
                }
            }
            assert forall|a: int, b: int| 0 <= a < b < store_keys(after).len() implies #[trigger] store_keys(after)[a]
                != #[trigger] store_keys(after)[b] by {
                let a2 = if a < i { a } else { a + 1 };
                let b2 = if b < i { b } else { b + 1 };
                assert(store_keys(before)[a2] != store_keys(before)[b2]);
            }
        }
        self.storage = storage;
        Ok(())
    }
}

/// Deleting a node just created under a fresh identifier leaves every lookup
/// as it was before the creation.
pub proof fn lemma_create_then_delete(
    before: StructuralFactoryImpl,
    created: StructuralFactoryImpl,
    deleted: StructuralFactoryImpl,
    node: NodeView,
)
    requires
        before.lookup(node.id) is None,
        created.lookup(node.id) == Some(node),
        forall|k: Seq<char>| k != node.id ==> #[trigger] created.lookup(k) == before.lookup(k),
        deleted.lookup(node.id) is None,
        forall|k: Seq<char>| k != node.id ==> #[trigger] deleted.lookup(k) == created.lookup(k),
    ensures
        forall|k: Seq<char>| #[trigger] deleted.lookup(k) == before.lookup(k),
{
    assert forall|k: Seq<char>| #[trigger] deleted.lookup(k) == before.lookup(k) by {
        if k != node.id {
            assert(created.lookup(k) == before.lookup(k));
        }
    }
}

} // verus!
