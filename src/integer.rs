//! Integer features.
use vstd::prelude::*;

use crate::cache::CacheStore;
use crate::elem_type::{ImmOrPNode, IntegerRepresentation, ValueKind};
use crate::error::GenApiResult;
use crate::node::{
    DefaultNodeStore, IntegerNode, NodeBase, ValueCtxt, elem_readable, elem_writable,
    int_node_value_exec, kind_readable, kind_readable_exec, kind_value, kind_value_exec,
    kind_writable, kind_writable_exec, only_clears, set_kind, set_kind_exec, set_source,
    set_source_exec, source_value, source_value_exec, write_matches, int_node_value,
};
use crate::store::{IntegerId, NodeId};

verus! {

/// How the values of an integer feature step.
#[derive(Debug, Clone, Copy, PartialEq, Eq, Structural)]
pub enum IncrementMode {
    FixedIncrement,
    ListIncrement,
    NoIncrement,
}

/// The increment of an integer feature, if it has one.
pub open spec fn inc_value(
    nodes: Seq<Option<crate::node::NodeData>>,
    values: Seq<crate::store::ValueData>,
    inc: ImmOrPNode<i64>,
    fuel: nat,
) -> GenApiResult<Option<i64>> {
    match inc {
        ImmOrPNode::Imm(i) => Ok(Some(i)),
        ImmOrPNode::PNode(n) => match int_node_value(nodes, values, n, fuel) {
            Ok(v) => Ok(Some(v)),
            Err(e) => Err(e),
        },
    }
}

impl IntegerNode {
    pub fn value_kind(&self) -> (r: &ValueKind<IntegerId>)
        ensures
            *r == self.value_kind,
    {
        &self.value_kind
    }

    pub fn min_elem(&self) -> (r: ImmOrPNode<IntegerId>)
        ensures
            r == self.min,
    {
        self.min
    }

    pub fn max_elem(&self) -> (r: ImmOrPNode<IntegerId>)
        ensures
            r == self.max,
    {
        self.max
    }

    pub fn inc_elem(&self) -> (r: ImmOrPNode<i64>)
        ensures
            r == self.inc,
    {
        self.inc
    }

    pub fn unit_elem(&self) -> (r: Option<&str>)
        ensures
            r is Some <==> self.unit is Some,
            r matches Some(u) ==> u@ == self.unit->Some_0@,
    {
        match &self.unit {
            Some(u) => Some(u.as_str()),
            None => None,
        }
    }

    pub fn representation_elem(&self) -> (r: IntegerRepresentation)
        ensures
            r == self.representation,
    {
        self.representation
    }

    pub fn p_selected(&self) -> (r: &[NodeId])
        ensures
            r@ == self.p_selected@,
    {
        self.p_selected.as_slice()
    }

    pub fn node_base(&self) -> (r: NodeBase<'_>)
        ensures
            *r.attr_base == self.attr_base,
            *r.elem_base == self.elem_base,
    {
        NodeBase { attr_base: &self.attr_base, elem_base: &self.elem_base }
    }

    pub fn streamable(&self) -> (r: bool)
        ensures
            r == self.streamable,
    {
        self.streamable
    }

    /// The current value, read through the value's source; references
    /// between nodes are followed at most as many times as there are nodes.
    pub fn value<C: CacheStore>(&self, store: &DefaultNodeStore, cx: &ValueCtxt<C>) -> (r:
        GenApiResult<i64>)
        ensures
            r == kind_value(store.nodes(), cx.values(), self.value_kind, store.nodes().len()),
    {
        kind_value_exec(&self.value_kind, store, &cx.value_store, store.len())
    }

    /// Writes `value` through the value's source. The caches of the nodes
    /// that this node invalidates are cleared first; the cache loses no
    /// other entry but those of nodes that the write reaches.
    pub fn set_value<C: CacheStore>(
        &self,
        value: i64,
        store: &DefaultNodeStore,
        cx: &mut ValueCtxt<C>,
    ) -> (r: GenApiResult<()>)
        ensures
            write_matches(
                r,
                final(cx).values(),
                set_kind(store.nodes(), old(cx).values(), self.value_kind, value, store.nodes().len()),
            ),
            only_clears(old(cx).cache_store, final(cx).cache_store),
            forall|k: (NodeId, i64, i64)|
                old(cx).cache_store.invalidates(self.attr_base.id, k.0)
                    ==> #[trigger] final(cx).cache_store.cached(k) is None,
    {
        cx.invalidate_cache_by(self.attr_base.id);
        let ghost mid = cx.cache_store;
        let r = set_kind_exec(&self.value_kind, value, store, cx, store.len());
        proof {
            assert forall|k: (NodeId, i64, i64)|
                old(cx).cache_store.invalidates(self.attr_base.id, k.0) implies #[trigger] cx.cache_store.cached(
                k,
            ) is None by {
                assert(mid.cached(k) is None);
                assert(cx.cache_store.cached(k) is None || cx.cache_store.cached(k) == mid.cached(k));
            }
        }
        r
    }

    pub fn min<C: CacheStore>(&self, store: &DefaultNodeStore, cx: &ValueCtxt<C>) -> (r:
        GenApiResult<i64>)
        ensures
            r == source_value(store.nodes(), cx.values(), self.min, store.nodes().len()),
    {
        source_value_exec(self.min, store, &cx.value_store, store.len())
    }

    pub fn max<C: CacheStore>(&self, store: &DefaultNodeStore, cx: &ValueCtxt<C>) -> (r:
        GenApiResult<i64>)
        ensures
            r == source_value(store.nodes(), cx.values(), self.max, store.nodes().len()),
    {
        source_value_exec(self.max, store, &cx.value_store, store.len())
    }

    pub fn inc_mode(&self) -> (r: Option<IncrementMode>)
        ensures
            r == Some(IncrementMode::FixedIncrement),
    {
        Some(IncrementMode::FixedIncrement)
    }

    pub fn inc<C: CacheStore>(&self, store: &DefaultNodeStore, cx: &ValueCtxt<C>) -> (r:
        GenApiResult<Option<i64>>)
        ensures
            r == inc_value(store.nodes(), cx.values(), self.inc, store.nodes().len()),
    {
        match self.inc {
            ImmOrPNode::Imm(i) => Ok(Some(i)),
            ImmOrPNode::PNode(n) => match int_node_value_exec(n, store, &cx.value_store, store.len()) {
                Ok(v) => Ok(Some(v)),
                Err(e) => Err(e),
            },
        }
    }

    pub fn representation(&self) -> (r: IntegerRepresentation)
        ensures
            r == self.representation,
    {
        self.representation_elem()
    }

    pub fn unit(&self) -> (r: Option<&str>)
        ensures
            r is Some <==> self.unit is Some,
            r matches Some(u) ==> u@ == self.unit->Some_0@,
    {
        self.unit_elem()
    }

    pub fn set_min<C: CacheStore>(&self, value: i64, store: &DefaultNodeStore, cx: &mut ValueCtxt<C>) -> (r:
        GenApiResult<()>)
        ensures
            write_matches(
                r,
                final(cx).values(),
                set_source(store.nodes(), old(cx).values(), self.min, value, store.nodes().len()),
            ),
            only_clears(old(cx).cache_store, final(cx).cache_store),
    {
        set_source_exec(self.min, value, store, cx, store.len())
    }

    pub fn set_max<C: CacheStore>(&self, value: i64, store: &DefaultNodeStore, cx: &mut ValueCtxt<C>) -> (r:
        GenApiResult<()>)
        ensures
            write_matches(
                r,
                final(cx).values(),
                set_source(store.nodes(), old(cx).values(), self.max, value, store.nodes().len()),
            ),
            only_clears(old(cx).cache_store, final(cx).cache_store),
    {
        set_source_exec(self.max, value, store, cx, store.len())
    }

    /// Readable when the element base allows it and the value's source is
    /// readable.
    pub fn is_readable<C: CacheStore>(&self, store: &DefaultNodeStore, cx: &ValueCtxt<C>) -> (r:
        GenApiResult<bool>)
        ensures
            r == (if !elem_readable(self.elem_base) {
                Ok(false)
            } else {
                kind_readable(store.nodes(), cx.values(), self.value_kind, store.nodes().len())
            }),
    {
        if !self.elem_base.is_readable() {
            return Ok(false);
        }
        kind_readable_exec(&self.value_kind, store, &cx.value_store, store.len())
    }

    /// Writable when the element base allows it and every node a write
    /// reaches is writable.
    pub fn is_writable<C: CacheStore>(&self, store: &DefaultNodeStore, cx: &ValueCtxt<C>) -> (r:
        GenApiResult<bool>)
        ensures
            r == (if !elem_writable(self.elem_base) {
                Ok(false)
            } else {
                kind_writable(store.nodes(), cx.values(), self.value_kind, store.nodes().len())
            }),
    {
        if !self.elem_base.is_writable() {
            return Ok(false);
        }
        kind_writable_exec(&self.value_kind, store, &cx.value_store, store.len())
    }

    pub fn selecting_nodes(&self) -> (r: GenApiResult<&[NodeId]>)
        ensures
            r matches Ok(s) && s@ == self.p_selected@,
    {
        Ok(self.p_selected())
    }
}

} // verus!
