//! Enumeration features and their entries.
use vstd::prelude::*;

use crate::cache::CacheStore;
use crate::elem_type::ImmOrPNode;
use crate::error::{GenApiError, GenApiResult};
use crate::node::{
    DefaultNodeStore, EnumEntryNode, EnumerationNode, NodeBase, NodeData, ValueCtxt,
    elem_readable, elem_writable, node_at, only_clears, set_source, set_source_exec,
    source_readable, source_readable_exec, source_value, source_value_exec, source_writable,
    source_writable_exec, write_matches, WriteOutcome,
};
use crate::store::{IntegerId, NodeId, ValueData};
use crate::text::str_eq;

verus! {

/// The entry node stored under `nid`, if it is one.
pub open spec fn entry_of(nodes: Seq<Option<NodeData>>, nid: NodeId) -> Option<EnumEntryNode> {
    match node_at(nodes, nid) {
        Some(NodeData::EnumEntry(e)) => Some(*e),
        _ => None,
    }
}

/// The first of `entries` whose value is `v`.
pub open spec fn entry_with_value(nodes: Seq<Option<NodeData>>, entries: Seq<NodeId>, v: i64) -> Option<
    NodeId,
>
    decreases entries.len(),
{
    if entries.len() == 0 {
        None
    } else if entry_of(nodes, entries[0]) matches Some(e) && e.value == v {
        Some(entries[0])
    } else {
        entry_with_value(nodes, entries.drop_first(), v)
    }
}

/// The first of `entries` whose symbolic name is `name`.
pub open spec fn entry_with_symbol(
    nodes: Seq<Option<NodeData>>,
    entries: Seq<NodeId>,
    name: Seq<char>,
) -> Option<NodeId>
    decreases entries.len(),
{
    if entries.len() == 0 {
        None
    } else if entry_of(nodes, entries[0]) matches Some(e) && e.symbolic@ == name {
        Some(entries[0])
    } else {
        entry_with_symbol(nodes, entries.drop_first(), name)
    }
}

/// The entry that matches the current value of the enumeration.
pub open spec fn current_entry_of(
    nodes: Seq<Option<NodeData>>,
    values: Seq<ValueData>,
    e: EnumerationNode,
    fuel: nat,
) -> GenApiResult<NodeId> {
    match source_value(nodes, values, e.value, fuel) {
        Ok(v) => match entry_with_value(nodes, e.entries@, v) {
            Some(n) => Ok(n),
            None => Err(GenApiError::InvalidNode),
        },
        Err(err) => Err(err),
    }
}

/// What selecting the entry of value `v` makes of the values: `InvalidData`
/// when no entry has it.
pub open spec fn select_by_value(
    nodes: Seq<Option<NodeData>>,
    values: Seq<ValueData>,
    e: EnumerationNode,
    v: i64,
    fuel: nat,
) -> WriteOutcome {
    if entry_with_value(nodes, e.entries@, v) is None {
        (values, Err(GenApiError::InvalidData))
    } else {
        set_source(nodes, values, e.value, v, fuel)
    }
}

/// What selecting the entry named `name` makes of the values: `InvalidData`
/// when no entry has that name.
pub open spec fn select_by_symbol(
    nodes: Seq<Option<NodeData>>,
    values: Seq<ValueData>,
    e: EnumerationNode,
    name: Seq<char>,
    fuel: nat,
) -> WriteOutcome {
    match entry_with_symbol(nodes, e.entries@, name) {
        Some(n) => select_by_value(nodes, values, e, entry_of(nodes, n)->Some_0.value, fuel),
        None => (values, Err(GenApiError::InvalidData)),
    }
}

fn entry_with_value_exec(store: &DefaultNodeStore, entries: &Vec<NodeId>, v: i64) -> (r: Option<
    NodeId,
>)
    ensures
        r == entry_with_value(store.nodes(), entries@, v),
{
    let mut i: usize = 0;
    assert(entries@.subrange(0, entries@.len() as int) =~= entries@);
    while i < entries.len()
        invariant
            i <= entries@.len(),
            entry_with_value(store.nodes(), entries@, v) == entry_with_value(
                store.nodes(),
                entries@.subrange(i as int, entries@.len() as int),
                v,
            ),
        decreases entries@.len() - i,
    {
        let ghost rest = entries@.subrange(i as int, entries@.len() as int);
        assert(rest[0] == entries@[i as int]);
        if let Some(NodeData::EnumEntry(ent)) = store.node_opt(entries[i]) {
            if ent.value == v {
                return Some(entries[i]);
            }
        }
        assert(rest.drop_first() =~= entries@.subrange(i + 1, entries@.len() as int));
        i = i + 1;
    }
    None
}

fn entry_with_symbol_exec(store: &DefaultNodeStore, entries: &Vec<NodeId>, name: &str) -> (r:
    Option<(NodeId, i64)>)
    ensures
        r is Some <==> entry_with_symbol(store.nodes(), entries@, name@) is Some,
        r matches Some((n, v)) ==> entry_with_symbol(store.nodes(), entries@, name@) == Some(n)
            && entry_of(store.nodes(), n) is Some && entry_of(store.nodes(), n)->Some_0.value == v,
{
    let mut i: usize = 0;
    assert(entries@.subrange(0, entries@.len() as int) =~= entries@);
    while i < entries.len()
        invariant
            i <= entries@.len(),
            entry_with_symbol(store.nodes(), entries@, name@) == entry_with_symbol(
                store.nodes(),
                entries@.subrange(i as int, entries@.len() as int),
                name@,
            ),
        decreases entries@.len() - i,
    {
        let ghost rest = entries@.subrange(i as int, entries@.len() as int);
        assert(rest[0] == entries@[i as int]);
        if let Some(NodeData::EnumEntry(ent)) = store.node_opt(entries[i]) {
            if str_eq(ent.symbolic.as_str(), name) {
                return Some((entries[i], ent.value));
            }
        }
        assert(rest.drop_first() =~= entries@.subrange(i + 1, entries@.len() as int));
        i = i + 1;
    }
    None
}

impl EnumerationNode {
    pub fn value_elem(&self) -> (r: ImmOrPNode<IntegerId>)
        ensures
            r == self.value,
    {
        self.value
    }

    pub fn p_selected(&self) -> (r: &[NodeId])
        ensures
            r@ == self.p_selected@,
    {
        self.p_selected.as_slice()
    }

    pub fn polling_time(&self) -> (r: Option<u64>)
        ensures
            r == self.polling_time,
    {
        self.polling_time
    }

    pub fn node_base(&self) -> (r: NodeBase<'_>)
        ensures
            *r.attr_base == self.attr_base,
            *r.elem_base == self.elem_base,
    {
        NodeBase { attr_base: &self.attr_base, elem_base: &self.elem_base }
    }

    pub fn streamable(&self) -> (r: bool)
        ensures
            r == self.streamable,
    {
        self.streamable
    }

    pub fn entries(&self) -> (r: &[NodeId])
        ensures
            r@ == self.entries@,
    {
        self.entries.as_slice()
    }

    pub fn current_value<C: CacheStore>(&self, store: &DefaultNodeStore, cx: &ValueCtxt<C>) -> (r:
        GenApiResult<i64>)
        ensures
            r == source_value(store.nodes(), cx.values(), self.value, store.nodes().len()),
    {
        source_value_exec(self.value, store, &cx.value_store, store.len())
    }

    /// The first entry whose value is the current value; `InvalidNode` when
    /// there is none.
    pub fn current_entry<C: CacheStore>(&self, store: &DefaultNodeStore, cx: &ValueCtxt<C>) -> (r:
        GenApiResult<NodeId>)
        ensures
            r == current_entry_of(store.nodes(), cx.values(), *self, store.nodes().len()),
    {
        let value = self.current_value(store, cx)?;
        match entry_with_value_exec(store, &self.entries, value) {
            Some(n) => Ok(n),
            None => Err(GenApiError::InvalidNode),
        }
    }

    /// The entry named `name`, if there is one.
    pub fn entry_by_symbolic(&self, name: &str, store: &DefaultNodeStore) -> (r: Option<NodeId>)
        ensures
            r == entry_with_symbol(store.nodes(), self.entries@, name@),
    {
        match entry_with_symbol_exec(store, &self.entries, name) {
            Some((n, _)) => Some(n),
            None => None,
        }
    }

    /// Selects the entry named `name`; `InvalidData` when there is none.
    pub fn set_entry_by_symbolic<C: CacheStore>(
        &self,
        name: &str,
        store: &DefaultNodeStore,
        cx: &mut ValueCtxt<C>,
    ) -> (r: GenApiResult<()>)
        ensures
            write_matches(
                r,
                final(cx).values(),
                select_by_symbol(store.nodes(), old(cx).values(), *self, name@, store.nodes().len()),
            ),
            only_clears(old(cx).cache_store, final(cx).cache_store),
            entry_with_symbol(store.nodes(), self.entries@, name@) is None ==> r == Err::<
                (),
                GenApiError,
            >(GenApiError::InvalidData) && *final(cx) == *old(cx),
            entry_with_symbol(store.nodes(), self.entries@, name@) is Some ==> forall|
                k: (NodeId, i64, i64),
            |
                old(cx).cache_store.invalidates(self.attr_base.id, k.0)
                    ==> #[trigger] final(cx).cache_store.cached(k) is None,
    {
        match entry_with_symbol_exec(store, &self.entries, name) {
            Some((n, value)) => {
                proof {
                    lemma_entry_with_symbol_found(store.nodes(), self.entries@, name@);
                    let i = choose|i: int| 0 <= i < self.entries@.len() && self.entries@[i] == n;
                    lemma_entry_with_value_found(store.nodes(), self.entries@, i, value);
                }
                self.set_entry_by_value(value, store, cx)
            },
            None => Err(GenApiError::InvalidData),
        }
    }

    /// Selects the entry of value `value`: clears the caches that this node
    /// invalidates and writes the value; `InvalidData` when no entry has it.
    pub fn set_entry_by_value<C: CacheStore>(
        &self,
        value: i64,
        store: &DefaultNodeStore,
        cx: &mut ValueCtxt<C>,
    ) -> (r: GenApiResult<()>)
        ensures
            write_matches(
                r,
                final(cx).values(),
                select_by_value(store.nodes(), old(cx).values(), *self, value, store.nodes().len()),
            ),
            only_clears(old(cx).cache_store, final(cx).cache_store),
            entry_with_value(store.nodes(), self.entries@, value) is None ==> r == Err::<
                (),
                GenApiError,
            >(GenApiError::InvalidData) && *final(cx) == *old(cx),
            entry_with_value(store.nodes(), self.entries@, value) is Some ==> forall|
                k: (NodeId, i64, i64),
            |
                old(cx).cache_store.invalidates(self.attr_base.id, k.0)
                    ==> #[trigger] final(cx).cache_store.cached(k) is None,
    {
        if entry_with_value_exec(store, &self.entries, value).is_none() {
            return Err(GenApiError::InvalidData);
        }
        cx.invalidate_cache_by(self.attr_base.id);
        let ghost mid = cx.cache_store;
        let r = set_source_exec(self.value, value, store, cx, store.len());
        proof {
            assert forall|k: (NodeId, i64, i64)|
                old(cx).cache_store.invalidates(self.attr_base.id, k.0) implies #[trigger] cx.cache_store.cached(
                k,
            ) is None by {
                assert(mid.cached(k) is None);
                assert(cx.cache_store.cached(k) is None || cx.cache_store.cached(k) == mid.cached(k));
            }
        }
        r
    }

    pub fn is_readable<C: CacheStore>(&self, store: &DefaultNodeStore, cx: &ValueCtxt<C>) -> (r:
        GenApiResult<bool>)
        ensures
            r == (if !elem_readable(self.elem_base) {
                Ok(false)
            } else {
                source_readable(store.nodes(), cx.values(), self.value, store.nodes().len())
            }),
    {
        if !self.elem_base.is_readable() {
            return Ok(false);
        }
        source_readable_exec(self.value, store, &cx.value_store, store.len())
    }

    pub fn is_writable<C: CacheStore>(&self, store: &DefaultNodeStore, cx: &ValueCtxt<C>) -> (r:
        GenApiResult<bool>)
        ensures
            r == (if !elem_writable(self.elem_base) {
                Ok(false)
            } else {
                source_writable(store.nodes(), cx.values(), self.value, store.nodes().len())
            }),
    {
        if !self.elem_base.is_writable() {
            return Ok(false);
        }
        source_writable_exec(self.value, store, &cx.value_store, store.len())
    }

    pub fn selecting_nodes(&self) -> (r: GenApiResult<&[NodeId]>)
        ensures
            r matches Ok(s) && s@ == self.p_selected@,
    {
        Ok(self.p_selected())
    }
}

impl EnumEntryNode {
    pub fn value(&self) -> (r: i64)
        ensures
            r == self.value,
    {
        self.value
    }

    /// The bits of the entry's numeric value, if it has one of its own.
    pub fn numeric_value_bits(&self) -> (r: Option<u64>)
        ensures
            r == self.numeric_value,
    {
        self.numeric_value
    }

    pub fn symbolic(&self) -> (r: &str)
        ensures
            r@ == self.symbolic@,
    {
        self.symbolic.as_str()
    }

    pub fn is_self_clearing(&self) -> (r: bool)
        ensures
            r == self.is_self_clearing,
    {
        self.is_self_clearing
    }

    pub fn is_locked(&self) -> (r: bool)
        ensures
            r == self.elem_base.is_locked,
    {
        self.elem_base.is_locked
    }

    pub fn is_implemented(&self) -> (r: bool)
        ensures
            r == self.elem_base.is_implemented,
    {
        self.elem_base.is_implemented
    }

    pub fn is_available(&self) -> (r: bool)
        ensures
            r == self.elem_base.is_available,
    {
        self.elem_base.is_available
    }

    pub fn node_base(&self) -> (r: NodeBase<'_>)
        ensures
            *r.attr_base == self.attr_base,
            *r.elem_base == self.elem_base,
    {
        NodeBase { attr_base: &self.attr_base, elem_base: &self.elem_base }
    }

    pub fn streamable(&self) -> (r: bool)
        ensures
            !r,
    {
        false
    }
}

/// No two entry nodes among `entries` share a value.
pub open spec fn entry_values_unique(nodes: Seq<Option<NodeData>>, entries: Seq<NodeId>) -> bool {
    forall|i: int, j: int|
        0 <= i < j < entries.len() && #[trigger] entry_of(nodes, entries[i]) is Some
            && #[trigger] entry_of(nodes, entries[j]) is Some ==> entry_of(nodes, entries[i])->Some_0.value
            != entry_of(nodes, entries[j])->Some_0.value
}

proof fn lemma_entry_with_symbol_found(nodes: Seq<Option<NodeData>>, entries: Seq<NodeId>, name: Seq<char>)
    requires
        entry_with_symbol(nodes, entries, name) is Some,
    ensures
        ({
            let n = entry_with_symbol(nodes, entries, name)->Some_0;
            &&& entries.contains(n)
            &&& entry_of(nodes, n) is Some
            &&& entry_of(nodes, n)->Some_0.symbolic@ == name
        }),
    decreases entries.len(),
{
    if entry_of(nodes, entries[0]) matches Some(e) && e.symbolic@ == name {
        assert(entries.contains(entries[0]));
    } else {
        lemma_entry_with_symbol_found(nodes, entries.drop_first(), name);
        let n = entry_with_symbol(nodes, entries, name)->Some_0;
        let k = choose|k: int| 0 <= k < entries.drop_first().len() && entries.drop_first()[k] == n;
        assert(entries[k + 1] == n);
    }
}

proof fn lemma_entry_with_value_found(
    nodes: Seq<Option<NodeData>>,
    entries: Seq<NodeId>,
    i: int,
    v: i64,
)
    requires
        0 <= i < entries.len(),
        entry_of(nodes, entries[i]) is Some,
        entry_of(nodes, entries[i])->Some_0.value == v,
    ensures
        entry_with_value(nodes, entries, v) is Some,
    decreases i,
{
    if i > 0 && !(entry_of(nodes, entries[0]) matches Some(e) && e.value == v) {
        assert(entries.drop_first()[i - 1] == entries[i]);
        lemma_entry_with_value_found(nodes, entries.drop_first(), i - 1, v);
    }
}

proof fn lemma_entry_with_value_unique(
    nodes: Seq<Option<NodeData>>,
    entries: Seq<NodeId>,
    i: int,
    v: i64,
)
    requires
        entry_values_unique(nodes, entries),
        0 <= i < entries.len(),
        entry_of(nodes, entries[i]) is Some,
        entry_of(nodes, entries[i])->Some_0.value == v,
    ensures
        entry_with_value(nodes, entries, v) == Some(entries[i]),
    decreases entries.len(),
{
    if entry_of(nodes, entries[0]) matches Some(e) && e.value == v {
        if i > 0 {
            assert(entry_of(nodes, entries[0]) is Some && entry_of(nodes, entries[i]) is Some);
        }
    } else {
        let rest = entries.drop_first();
        assert forall|a: int, b: int|
            0 <= a < b < rest.len() && #[trigger] entry_of(nodes, rest[a]) is Some
                && #[trigger] entry_of(nodes, rest[b]) is Some implies entry_of(nodes, rest[a])->Some_0.value
                != entry_of(nodes, rest[b])->Some_0.value by {
            assert(rest[a] == entries[a + 1] && rest[b] == entries[b + 1]);
        }
        assert(rest[i - 1] == entries[i]);
        lemma_entry_with_value_unique(nodes, rest, i - 1, v);
    }
}

/// Selecting an entry by its name makes it the current entry, for an
/// enumeration whose entries have distinct values and whose value is held
/// in the value store.
pub proof fn lemma_select_by_symbol_closure(
    nodes: Seq<Option<NodeData>>,
    values: Seq<ValueData>,
    e: EnumerationNode,
    name: Seq<char>,
    fuel: nat,
)
    requires
        entry_values_unique(nodes, e.entries@),
        entry_with_symbol(nodes, e.entries@, name) is Some,
        e.value is Imm,
        e.value->Imm_0.0 < values.len(),
    ensures
        select_by_symbol(nodes, values, e, name, fuel).1 is Ok,
        current_entry_of(nodes, select_by_symbol(nodes, values, e, name, fuel).0, e, fuel) is Ok,
        ({
            let n = current_entry_of(
                nodes,
                select_by_symbol(nodes, values, e, name, fuel).0,
                e,
                fuel,
            )->Ok_0;
            entry_of(nodes, n) is Some && entry_of(nodes, n)->Some_0.symbolic@ == name
        }),
{
    lemma_entry_with_symbol_found(nodes, e.entries@, name);
    let n = entry_with_symbol(nodes, e.entries@, name)->Some_0;
    let v = entry_of(nodes, n)->Some_0.value;
    let i = choose|i: int| 0 <= i < e.entries@.len() && e.entries@[i] == n;
    lemma_entry_with_value_unique(nodes, e.entries@, i, v);
    let id = e.value->Imm_0;
    let vs = values.update(id.0 as int, ValueData::Integer(v));
    assert(select_by_symbol(nodes, values, e, name, fuel) == (vs, Ok::<(), GenApiError>(())));
    assert(source_value(nodes, vs, e.value, fuel) == Ok::<i64, GenApiError>(v));
}

} // verus!
