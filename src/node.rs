//! The node graph: node data, the node store, and the value context through
//! which nodes read and write their values.
use vstd::prelude::*;

use crate::cache::CacheStore;
use crate::elem_type::{
    AccessMode, ImmOrPNode, IntegerRepresentation, MergePriority, NameSpace, ValueIndexed,
    ValueKind, Visibility,
};
use crate::error::{GenApiError, GenApiResult};
use crate::interner::{
    NameInterner, interned_names, interner_get, interner_get_or_intern, interner_new,
    interner_resolve,
};
use crate::register::IntRegNode;
use crate::store::{DefaultValueStore, IntegerId, NodeId, ValueData, ValueId, integer_at};

verus! {

/// Attributes of a node that do not change while it lives.
#[derive(Debug, Clone)]
pub struct NodeAttributeBase {
    pub id: NodeId,
    pub name_space: NameSpace,
    pub merge_priority: MergePriority,
}

/// Elements that every node carries: presentation and access.
#[derive(Debug, Clone)]
pub struct NodeElementBase {
    pub tool_tip: Option<String>,
    pub description: Option<String>,
    pub display_name: Option<String>,
    pub visibility: Visibility,
    pub imposed_access_mode: AccessMode,
    pub is_implemented: bool,
    pub is_available: bool,
    pub is_locked: bool,
    pub p_invalidators: Vec<NodeId>,
}

/// The element base allows reading.
pub open spec fn elem_readable(e: NodeElementBase) -> bool {
    e.is_implemented && e.is_available && (e.imposed_access_mode == AccessMode::RO
        || e.imposed_access_mode == AccessMode::RW)
}

/// The element base allows writing.
pub open spec fn elem_writable(e: NodeElementBase) -> bool {
    e.is_implemented && e.is_available && !e.is_locked && (e.imposed_access_mode
        == AccessMode::WO || e.imposed_access_mode == AccessMode::RW)
}

impl NodeElementBase {
    pub fn is_readable(&self) -> (r: bool)
        ensures
            r == elem_readable(*self),
    {
        self.is_implemented && self.is_available && match self.imposed_access_mode {
            AccessMode::RO | AccessMode::RW => true,
            AccessMode::WO => false,
        }
    }

    pub fn is_writable(&self) -> (r: bool)
        ensures
            r == elem_writable(*self),
    {
        self.is_implemented && self.is_available && !self.is_locked
            && match self.imposed_access_mode {
            AccessMode::WO | AccessMode::RW => true,
            AccessMode::RO => false,
        }
    }
}

/// The attributes and elements of a node, borrowed together.
pub struct NodeBase<'a> {
    pub attr_base: &'a NodeAttributeBase,
    pub elem_base: &'a NodeElementBase,
}

impl<'a> NodeBase<'a> {
    pub fn id(&self) -> (r: NodeId)
        ensures
            r == self.attr_base.id,
    {
        self.attr_base.id
    }
}

/// An integer feature.
#[derive(Debug, Clone)]
pub struct IntegerNode {
    pub attr_base: NodeAttributeBase,
    pub elem_base: NodeElementBase,
    pub streamable: bool,
    pub value_kind: ValueKind<IntegerId>,
    pub min: ImmOrPNode<IntegerId>,
    pub max: ImmOrPNode<IntegerId>,
    pub inc: ImmOrPNode<i64>,
    pub unit: Option<String>,
    pub representation: IntegerRepresentation,
    pub p_selected: Vec<NodeId>,
}

/// A feature whose value is one of its entries.
#[derive(Debug, Clone)]
pub struct EnumerationNode {
    pub attr_base: NodeAttributeBase,
    pub elem_base: NodeElementBase,
    pub streamable: bool,
    pub entries: Vec<NodeId>,
    pub value: ImmOrPNode<IntegerId>,
    pub p_selected: Vec<NodeId>,
    pub polling_time: Option<u64>,
}

/// One entry of an enumeration. Its numeric value is held as IEEE-754
/// binary64 bits.
#[derive(Debug, Clone)]
pub struct EnumEntryNode {
    pub attr_base: NodeAttributeBase,
    pub elem_base: NodeElementBase,
    pub value: i64,
    pub numeric_value: Option<u64>,
    pub symbolic: String,
    pub is_self_clearing: bool,
}

/// The data of one node. Reading a register node takes the device: the
/// reads here answer `InvalidNode` for a value that reaches one, and the
/// reads of the register module follow it through the device. A write
/// through the graph reaches integer nodes and value handles only.
#[derive(Debug, Clone)]
pub enum NodeData {
    Integer(Box<IntegerNode>),
    Enumeration(Box<EnumerationNode>),
    EnumEntry(Box<EnumEntryNode>),
    IntReg(Box<IntRegNode>),
}

impl NodeData {
    pub fn node_base(&self) -> (r: NodeBase<'_>)
        ensures
            r.attr_base == node_attr_base(*self),
            r.elem_base == node_elem_base(*self),
    {
        match self {
            NodeData::Integer(n) => NodeBase { attr_base: &n.attr_base, elem_base: &n.elem_base },
            NodeData::Enumeration(n) => NodeBase {
                attr_base: &n.attr_base,
                elem_base: &n.elem_base,
            },
            NodeData::EnumEntry(n) => NodeBase { attr_base: &n.attr_base, elem_base: &n.elem_base },
            NodeData::IntReg(n) => NodeBase {
                attr_base: &n.attr_base,
                elem_base: &n.register_base.elem_base,
            },
        }
    }
}

pub open spec fn node_attr_base(d: NodeData) -> NodeAttributeBase {
    match d {
        NodeData::Integer(n) => n.attr_base,
        NodeData::Enumeration(n) => n.attr_base,
        NodeData::EnumEntry(n) => n.attr_base,
        NodeData::IntReg(n) => n.attr_base,
    }
}

pub open spec fn node_elem_base(d: NodeData) -> NodeElementBase {
    match d {
        NodeData::Integer(n) => n.elem_base,
        NodeData::Enumeration(n) => n.elem_base,
        NodeData::EnumEntry(n) => n.elem_base,
        NodeData::IntReg(n) => n.register_base.elem_base,
    }
}

/// The node stored under `nid`, if any.
pub open spec fn node_at(nodes: Seq<Option<NodeData>>, nid: NodeId) -> Option<NodeData> {
    if nid.0 < nodes.len() {
        nodes[nid.0 as int]
    } else {
        None
    }
}

/// The nodes that the slots hold, in order.
pub open spec fn stored(slots: Seq<Option<NodeData>>) -> Seq<NodeData>
    decreases slots.len(),
{
    if slots.len() == 0 {
        seq![]
    } else {
        let p = stored(slots.drop_last());
        match slots.last() {
            Some(d) => p.push(d),
            None => p,
        }
    }
}

/// Registry of nodes: names interned to dense ids, and one slot per id.
pub struct DefaultNodeStore {
    interner: NameInterner,
    store: Vec<Option<NodeData>>,
    fresh_id: u32,
}

impl DefaultNodeStore {
    /// The interned names; the id of a name is its position.
    pub closed spec fn names(&self) -> Seq<Seq<char>> {
        interned_names(self.interner)
    }

    /// The node slots, by id.
    pub closed spec fn nodes(&self) -> Seq<Option<NodeData>> {
        self.store@
    }

    pub closed spec fn next_fresh_id(&self) -> u32 {
        self.fresh_id
    }

    pub fn new() -> (r: DefaultNodeStore)
        ensures
            r.names() == Seq::<Seq<char>>::empty(),
            r.nodes() == Seq::<Option<NodeData>>::empty(),
            r.next_fresh_id() == 0,
    {
        DefaultNodeStore { interner: interner_new(), store: Vec::new(), fresh_id: 0 }
    }

    pub fn name_by_id(&self, nid: NodeId) -> (r: Option<&str>)
        ensures
            nid.0 < self.names().len() ==> (r matches Some(s) && s@ == self.names()[nid.0 as int]),
            nid.0 >= self.names().len() ==> r is None,
    {
        interner_resolve(&self.interner, nid.0 as usize)
    }

    pub fn id_by_name(&self, s: &str) -> (r: Option<NodeId>)
        requires
            self.names().len() <= u32::MAX,
        ensures
            r matches Some(nid) ==> nid.0 < self.names().len() && self.names()[nid.0 as int] == s@,
            r is None ==> forall|j: int| 0 <= j < self.names().len() ==> self.names()[j] != s@,
    {
        match interner_get(&self.interner, s) {
            Some(i) => NodeId::try_from_usize(i),
            None => None,
        }
    }

    /// The id of `s`, interning it first if it is new.
    pub fn get_or_intern(&mut self, s: &str) -> (r: NodeId)
        requires
            old(self).names().len() < u32::MAX,
        ensures
            final(self).nodes() == old(self).nodes(),
            final(self).next_fresh_id() == old(self).next_fresh_id(),
            r.0 < final(self).names().len(),
            final(self).names()[r.0 as int] == s@,
            (exists|j: int| 0 <= j < old(self).names().len() && old(self).names()[j] == s@)
                ==> final(self).names() == old(self).names(),
            !(exists|j: int| 0 <= j < old(self).names().len() && old(self).names()[j] == s@)
                ==> final(self).names() == old(self).names().push(s@) && r.0 == old(
                self,
            ).names().len(),
    {
        let i = interner_get_or_intern(&mut self.interner, s);
        NodeId(i as u32)
    }

    pub fn node_opt(&self, nid: NodeId) -> (r: Option<&NodeData>)
        ensures
            r matches Some(d) ==> node_at(self.nodes(), nid) == Some(*d),
            r is None ==> node_at(self.nodes(), nid) is None,
    {
        let i = nid.0 as usize;
        if i < self.store.len() {
            match &self.store[i] {
                Some(d) => Some(d),
                None => None,
            }
        } else {
            None
        }
    }

    pub fn node(&self, nid: NodeId) -> (r: &NodeData)
        requires
            node_at(self.nodes(), nid) is Some,
        ensures
            node_at(self.nodes(), nid) == Some(*r),
    {
        self.node_opt(nid).unwrap()
    }

    /// Puts `data` into the slot of `nid`, growing the slots as needed.
    pub fn store_node(&mut self, nid: NodeId, data: NodeData)
        ensures
            final(self).names() == old(self).names(),
            final(self).next_fresh_id() == old(self).next_fresh_id(),
            final(self).nodes().len() == if nid.0 < old(self).nodes().len() {
                old(self).nodes().len() as int
            } else {
                nid.0 + 1
            },
            forall|j: int|
                0 <= j < final(self).nodes().len() ==> #[trigger] final(self).nodes()[j] == if j
                    == nid.0 {
                    Some(data)
                } else if j < old(self).nodes().len() {
                    old(self).nodes()[j]
                } else {
                    None
                },
    {
        let id = nid.0 as usize;
        while self.store.len() <= id
            invariant
                self.interner == old(self).interner,
                self.fresh_id == old(self).fresh_id,
                old(self).store@.len() <= self.store@.len() <= if id < old(self).store@.len() {
                    old(self).store@.len() as int
                } else {
                    id + 1
                },
                forall|j: int|
                    0 <= j < self.store@.len() ==> #[trigger] self.store@[j] == if j < old(
                        self,
                    ).store@.len() {
                        old(self).store@[j]
                    } else {
                        None
                    },
            decreases id + 1 - self.store@.len(),
        {
            self.store.push(None);
        }
        self.store.set(id, Some(data));
    }

    /// A new number for a node that needs an identity of its own.
    pub fn fresh_id(&mut self) -> (r: u32)
        requires
            old(self).next_fresh_id() < u32::MAX,
        ensures
            r == old(self).next_fresh_id(),
            final(self).next_fresh_id() == r + 1,
            final(self).names() == old(self).names(),
            final(self).nodes() == old(self).nodes(),
    {
        let id = self.fresh_id;
        self.fresh_id = self.fresh_id + 1;
        id
    }

    /// Every stored node, in the order of their ids.
    pub fn stored_nodes(&self) -> (r: Vec<&NodeData>)
        ensures
            r@.map_values(|d: &NodeData| *d) == stored(self.nodes()),
    {
        let mut r: Vec<&NodeData> = Vec::new();
        let mut i: usize = 0;
        while i < self.store.len()
            invariant
                i <= self.store@.len(),
                r@.map_values(|d: &NodeData| *d) == stored(self.store@.subrange(0, i as int)),
            decreases self.store@.len() - i,
        {
            let ghost pre = self.store@.subrange(0, i + 1);
            assert(pre.drop_last() =~= self.store@.subrange(0, i as int));
            if let Some(d) = &self.store[i] {
                r.push(d);
            }
            assert(r@.map_values(|d: &NodeData| *d) =~= stored(pre));
            i = i + 1;
        }
        assert(self.store@.subrange(0, i as int) =~= self.store@);
        r
    }

    /// The number of node slots: no chain of references between distinct
    /// nodes is longer.
    pub fn len(&self) -> (r: usize)
        ensures
            r == self.nodes().len(),
    {
        self.store.len()
    }
}

/// The value and cache stores that one device call works on.
pub struct ValueCtxt<C> {
    pub value_store: DefaultValueStore,
    pub cache_store: C,
}

impl<C: CacheStore> ValueCtxt<C> {
    pub open spec fn values(&self) -> Seq<ValueData> {
        self.value_store.values()
    }

    pub fn new(value_store: DefaultValueStore, cache_store: C) -> (r: ValueCtxt<C>)
        ensures
            r.value_store == value_store,
            r.cache_store == cache_store,
    {
        ValueCtxt { value_store, cache_store }
    }

    pub fn value_store(&self) -> (r: &DefaultValueStore)
        ensures
            *r == self.value_store,
    {
        &self.value_store
    }

    pub fn cache_store(&self) -> (r: &C)
        ensures
            *r == self.cache_store,
    {
        &self.cache_store
    }

    /// Clears the cache of every node that a change of `nid` invalidates.
    pub fn invalidate_cache_by(&mut self, nid: NodeId)
        ensures
            final(self).values() == old(self).values(),
            final(self).cache_store.retains() == old(self).cache_store.retains(),
            forall|a: NodeId, b: NodeId| #[trigger]
                final(self).cache_store.invalidates(a, b) == old(self).cache_store.invalidates(a, b),
            forall|k: (NodeId, i64, i64)| #[trigger]
                final(self).cache_store.cached(k) == if old(self).cache_store.invalidates(
                    nid,
                    k.0,
                ) {
                    None
                } else {
                    old(self).cache_store.cached(k)
                },
    {
        self.cache_store.invalidate_by(nid);
    }
}

/// What an immediate integer handle reads as.
pub open spec fn imm_value(values: Seq<ValueData>, id: IntegerId) -> GenApiResult<i64> {
    match integer_at(values, id) {
        Some(v) => Ok(v),
        None => Err(GenApiError::InvalidData),
    }
}

/// The entry of an indexed source that index `idx` selects: the first one
/// with that index, else the default.
pub open spec fn select_indexed(
    entries: Seq<ValueIndexed<IntegerId>>,
    default: ImmOrPNode<IntegerId>,
    idx: i64,
) -> ImmOrPNode<IntegerId>
    decreases entries.len(),
{
    if entries.len() == 0 {
        default
    } else if entries[0].index == idx {
        entries[0].indexed
    } else {
        select_indexed(entries.drop_first(), default, idx)
    }
}

/// The value of the integer node `nid`, following at most `fuel` references
/// between nodes; a longer chain (a cycle) is `InvalidNode`.
pub open spec fn int_node_value(
    nodes: Seq<Option<NodeData>>,
    values: Seq<ValueData>,
    nid: NodeId,
    fuel: nat,
) -> GenApiResult<i64>
    decreases fuel, 0nat,
{
    if fuel == 0 {
        Err(GenApiError::InvalidNode)
    } else {
        match node_at(nodes, nid) {
            Some(NodeData::Integer(n)) => kind_value(nodes, values, n.value_kind, (fuel - 1) as nat),
            _ => Err(GenApiError::InvalidNode),
        }
    }
}

pub open spec fn source_value(
    nodes: Seq<Option<NodeData>>,
    values: Seq<ValueData>,
    src: ImmOrPNode<IntegerId>,
    fuel: nat,
) -> GenApiResult<i64>
    decreases fuel, 1nat,
{
    match src {
        ImmOrPNode::Imm(id) => imm_value(values, id),
        ImmOrPNode::PNode(n) => int_node_value(nodes, values, n, fuel),
    }
}

pub open spec fn kind_value(
    nodes: Seq<Option<NodeData>>,
    values: Seq<ValueData>,
    kind: ValueKind<IntegerId>,
    fuel: nat,
) -> GenApiResult<i64>
    decreases fuel, 2nat,
{
    match kind {
        ValueKind::Value(id) => imm_value(values, id),
        ValueKind::PValue(p) => int_node_value(nodes, values, p.p_value, fuel),
        ValueKind::PIndex(p) => match int_node_value(nodes, values, p.p_index, fuel) {
            Ok(idx) => source_value(
                nodes,
                values,
                select_indexed(p.value_indexed@, p.value_default, idx),
                fuel,
            ),
            Err(e) => Err(e),
        },
    }
}

pub(crate) fn imm_value_exec(values: &DefaultValueStore, id: IntegerId) -> (r: GenApiResult<i64>)
    ensures
        r == imm_value(values.values(), id),
{
    match values.integer_value(id) {
        Some(v) => Ok(v),
        None => Err(GenApiError::InvalidData),
    }
}

pub(crate) fn select_indexed_exec(
    entries: &Vec<ValueIndexed<IntegerId>>,
    default: ImmOrPNode<IntegerId>,
    idx: i64,
) -> (r: ImmOrPNode<IntegerId>)
    ensures
        r == select_indexed(entries@, default, idx),
{
    let mut i: usize = 0;
    assert(entries@.subrange(0, entries@.len() as int) =~= entries@);
    while i < entries.len()
        invariant
            i <= entries@.len(),
            select_indexed(entries@, default, idx) == select_indexed(
                entries@.subrange(i as int, entries@.len() as int),
                default,
                idx,
            ),
        decreases entries@.len() - i,
    {
        let ghost rest = entries@.subrange(i as int, entries@.len() as int);
        assert(rest[0] == entries@[i as int]);
        if entries[i].index == idx {
            return entries[i].indexed;
        }
        assert(rest.drop_first() =~= entries@.subrange(i + 1, entries@.len() as int));
        i = i + 1;
    }
    default
}

pub(crate) fn int_node_value_exec(
    nid: NodeId,
    store: &DefaultNodeStore,
    values: &DefaultValueStore,
    fuel: usize,
) -> (r: GenApiResult<i64>)
    ensures
        r == int_node_value(store.nodes(), values.values(), nid, fuel as nat),
    decreases fuel, 0nat,
{
    if fuel == 0 {
        return Err(GenApiError::InvalidNode);
    }
    match store.node_opt(nid) {
        Some(NodeData::Integer(n)) => kind_value_exec(&n.value_kind, store, values, fuel - 1),
        _ => Err(GenApiError::InvalidNode),
    }
}

pub(crate) fn source_value_exec(
    src: ImmOrPNode<IntegerId>,
    store: &DefaultNodeStore,
    values: &DefaultValueStore,
    fuel: usize,
) -> (r: GenApiResult<i64>)
    ensures
        r == source_value(store.nodes(), values.values(), src, fuel as nat),
    decreases fuel, 1nat,
{
    match src {
        ImmOrPNode::Imm(id) => imm_value_exec(values, id),
        ImmOrPNode::PNode(n) => int_node_value_exec(n, store, values, fuel),
    }
}

pub(crate) fn kind_value_exec(
    kind: &ValueKind<IntegerId>,
    store: &DefaultNodeStore,
    values: &DefaultValueStore,
    fuel: usize,
) -> (r: GenApiResult<i64>)
    ensures
        r == kind_value(store.nodes(), values.values(), *kind, fuel as nat),
    decreases fuel, 2nat,
{
    match kind {
        ValueKind::Value(id) => imm_value_exec(values, *id),
        ValueKind::PValue(p) => int_node_value_exec(p.p_value, store, values, fuel),
        ValueKind::PIndex(p) => match int_node_value_exec(p.p_index, store, values, fuel) {
            Ok(idx) => {
                let src = select_indexed_exec(&p.value_indexed, p.value_default, idx);
                source_value_exec(src, store, values, fuel)
            },
            Err(e) => Err(e),
        },
    }
}

/// What a write leaves: the values after it, and its result. A write that
/// fails part way keeps what it wrote before failing.
pub type WriteOutcome = (Seq<ValueData>, GenApiResult<()>);

/// What writing `v` to an immediate integer handle makes of the values.
pub open spec fn set_imm(values: Seq<ValueData>, id: IntegerId, v: i64) -> WriteOutcome {
    if id.0 < values.len() {
        (values.update(id.0 as int, ValueData::Integer(v)), Ok(()))
    } else {
        (values, Err(GenApiError::InvalidData))
    }
}

/// What writing `v` to the integer node `nid` makes of the values.
pub open spec fn set_int_node(
    nodes: Seq<Option<NodeData>>,
    values: Seq<ValueData>,
    nid: NodeId,
    v: i64,
    fuel: nat,
) -> WriteOutcome
    decreases fuel, 0nat, 0nat,
{
    if fuel == 0 {
        (values, Err(GenApiError::InvalidNode))
    } else {
        match node_at(nodes, nid) {
            Some(NodeData::Integer(n)) => set_kind(nodes, values, n.value_kind, v, (fuel - 1) as nat),
            _ => (values, Err(GenApiError::InvalidNode)),
        }
    }
}

pub open spec fn set_source(
    nodes: Seq<Option<NodeData>>,
    values: Seq<ValueData>,
    src: ImmOrPNode<IntegerId>,
    v: i64,
    fuel: nat,
) -> WriteOutcome
    decreases fuel, 1nat, 0nat,
{
    match src {
        ImmOrPNode::Imm(id) => set_imm(values, id, v),
        ImmOrPNode::PNode(n) => set_int_node(nodes, values, n, v, fuel),
    }
}

/// Writing `v` to each node of `copies` in order, up to the first failure.
pub open spec fn set_copies(
    nodes: Seq<Option<NodeData>>,
    values: Seq<ValueData>,
    copies: Seq<NodeId>,
    v: i64,
    fuel: nat,
) -> WriteOutcome
    decreases fuel, 1nat, copies.len(),
{
    if copies.len() == 0 {
        (values, Ok(()))
    } else {
        let (vs, r) = set_copies(nodes, values, copies.drop_last(), v, fuel);
        if r is Err {
            (vs, r)
        } else {
            set_int_node(nodes, vs, copies.last(), v, fuel)
        }
    }
}

pub open spec fn set_kind(
    nodes: Seq<Option<NodeData>>,
    values: Seq<ValueData>,
    kind: ValueKind<IntegerId>,
    v: i64,
    fuel: nat,
) -> WriteOutcome
    decreases fuel, 2nat, 0nat,
{
    match kind {
        ValueKind::Value(id) => set_imm(values, id, v),
        ValueKind::PValue(p) => {
            let (vs, r) = set_int_node(nodes, values, p.p_value, v, fuel);
            if r is Err {
                (vs, r)
            } else {
                set_copies(nodes, vs, p.p_value_copies@, v, fuel)
            }
        },
        ValueKind::PIndex(p) => match int_node_value(nodes, values, p.p_index, fuel) {
            Ok(idx) => set_source(
                nodes,
                values,
                select_indexed(p.value_indexed@, p.value_default, idx),
                v,
                fuel,
            ),
            Err(e) => (values, Err(e)),
        },
    }
}

/// A write left the values and returned the result that `outcome` gives.
pub open spec fn write_matches(r: GenApiResult<()>, values: Seq<ValueData>, outcome: WriteOutcome) -> bool {
    values == outcome.0 && r == outcome.1
}

/// The cache only lost entries, and its links are unchanged.
pub open spec fn only_clears<C: CacheStore>(before: C, after: C) -> bool {
    &&& after.retains() == before.retains()
    &&& forall|a: NodeId, b: NodeId| #[trigger]
        after.invalidates(a, b) == before.invalidates(a, b)
    &&& forall|k: (NodeId, i64, i64)| #[trigger]
        after.cached(k) is None || after.cached(k) == before.cached(k)
}

proof fn lemma_unit_ok(r: GenApiResult<()>)
    requires
        r is Ok,
    ensures
        r == Ok::<(), GenApiError>(()),
{
    let x: () = r->Ok_0;
    assert(x == ());
}

proof fn lemma_set_copies_err(
    nodes: Seq<Option<NodeData>>,
    values: Seq<ValueData>,
    copies: Seq<NodeId>,
    i: int,
    v: i64,
    fuel: nat,
)
    requires
        0 <= i <= copies.len(),
        set_copies(nodes, values, copies.subrange(0, i), v, fuel).1 is Err,
    ensures
        set_copies(nodes, values, copies, v, fuel) == set_copies(
            nodes,
            values,
            copies.subrange(0, i),
            v,
            fuel,
        ),
    decreases copies.len() - i,
{
    if i < copies.len() {
        let pre = copies.subrange(0, i + 1);
        assert(pre.drop_last() =~= copies.subrange(0, i));
        lemma_set_copies_err(nodes, values, copies, i + 1, v, fuel);
    } else {
        assert(copies.subrange(0, i) =~= copies);
    }
}

fn set_imm_exec<C: CacheStore>(id: IntegerId, v: i64, cx: &mut ValueCtxt<C>) -> (r: GenApiResult<()>)
    ensures
        write_matches(r, final(cx).values(), set_imm(old(cx).values(), id, v)),
        final(cx).cache_store == old(cx).cache_store,
{
    match cx.value_store.update(ValueId(id.0), ValueData::Integer(v)) {
        Some(_) => Ok(()),
        None => Err(GenApiError::InvalidData),
    }
}

pub(crate) fn set_int_node_exec<C: CacheStore>(
    nid: NodeId,
    v: i64,
    store: &DefaultNodeStore,
    cx: &mut ValueCtxt<C>,
    fuel: usize,
) -> (r: GenApiResult<()>)
    ensures
        write_matches(
            r,
            final(cx).values(),
            set_int_node(store.nodes(), old(cx).values(), nid, v, fuel as nat),
        ),
        only_clears(old(cx).cache_store, final(cx).cache_store),
    decreases fuel, 0nat, 0nat,
{
    if fuel == 0 {
        return Err(GenApiError::InvalidNode);
    }
    match store.node_opt(nid) {
        Some(NodeData::Integer(n)) => {
            cx.invalidate_cache_by(nid);
            set_kind_exec(&n.value_kind, v, store, cx, fuel - 1)
        },
        _ => Err(GenApiError::InvalidNode),
    }
}

pub(crate) fn set_source_exec<C: CacheStore>(
    src: ImmOrPNode<IntegerId>,
    v: i64,
    store: &DefaultNodeStore,
    cx: &mut ValueCtxt<C>,
    fuel: usize,
) -> (r: GenApiResult<()>)
    ensures
        write_matches(
            r,
            final(cx).values(),
            set_source(store.nodes(), old(cx).values(), src, v, fuel as nat),
        ),
        only_clears(old(cx).cache_store, final(cx).cache_store),
    decreases fuel, 1nat, 0nat,
{
    match src {
        ImmOrPNode::Imm(id) => set_imm_exec(id, v, cx),
        ImmOrPNode::PNode(n) => set_int_node_exec(n, v, store, cx, fuel),
    }
}

fn set_copies_exec<C: CacheStore>(
    copies: &Vec<NodeId>,
    v: i64,
    store: &DefaultNodeStore,
    cx: &mut ValueCtxt<C>,
    fuel: usize,
) -> (r: GenApiResult<()>)
    ensures
        write_matches(
            r,
            final(cx).values(),
            set_copies(store.nodes(), old(cx).values(), copies@, v, fuel as nat),
        ),
        only_clears(old(cx).cache_store, final(cx).cache_store),
    decreases fuel, 1nat, copies@.len(),
{
    let mut i: usize = 0;
    assert(copies@.subrange(0, 0).len() == 0);
    while i < copies.len()
        invariant
            i <= copies@.len(),
            set_copies(store.nodes(), old(cx).values(), copies@.subrange(0, i as int), v, fuel as nat).0
                == cx.values(),
            set_copies(store.nodes(), old(cx).values(), copies@.subrange(0, i as int), v, fuel as nat).1 is Ok,
            only_clears(old(cx).cache_store, cx.cache_store),
        decreases copies@.len() - i,
    {
        let ghost pre = copies@.subrange(0, i + 1);
        assert(pre.drop_last() =~= copies@.subrange(0, i as int));
        let ghost prev = cx.values();
        let res = set_int_node_exec(copies[i], v, store, cx, fuel);
        assert(set_copies(store.nodes(), old(cx).values(), pre, v, fuel as nat) == set_int_node(
            store.nodes(),
            prev,
            copies@[i as int],
            v,
            fuel as nat,
        ));
        if let Err(e) = res {
            proof {
                lemma_set_copies_err(store.nodes(), old(cx).values(), copies@, i + 1, v, fuel as nat);
            }
            return Err(e);
        }
        i = i + 1;
    }
    assert(copies@.subrange(0, i as int) =~= copies@);
    proof {
        lemma_unit_ok(set_copies(store.nodes(), old(cx).values(), copies@, v, fuel as nat).1);
    }
    Ok(())
}

pub(crate) fn set_kind_exec<C: CacheStore>(
    kind: &ValueKind<IntegerId>,
    v: i64,
    store: &DefaultNodeStore,
    cx: &mut ValueCtxt<C>,
    fuel: usize,
) -> (r: GenApiResult<()>)
    ensures
        write_matches(
            r,
            final(cx).values(),
            set_kind(store.nodes(), old(cx).values(), *kind, v, fuel as nat),
        ),
        only_clears(old(cx).cache_store, final(cx).cache_store),
    decreases fuel, 2nat, 0nat,
{
    match kind {
        ValueKind::Value(id) => set_imm_exec(*id, v, cx),
        ValueKind::PValue(p) => {
            let res = set_int_node_exec(p.p_value, v, store, cx, fuel);
            match res {
                Ok(()) => set_copies_exec(&p.p_value_copies, v, store, cx, fuel),
                Err(e) => Err(e),
            }
        },
        ValueKind::PIndex(p) => match int_node_value_exec(p.p_index, store, &cx.value_store, fuel) {
            Ok(idx) => {
                let src = select_indexed_exec(&p.value_indexed, p.value_default, idx);
                set_source_exec(src, v, store, cx, fuel)
            },
            Err(e) => Err(e),
        },
    }
}

/// Whether node `nid` can be read: its element base allows it and so does
/// the source of its value.
pub open spec fn node_readable(
    nodes: Seq<Option<NodeData>>,
    values: Seq<ValueData>,
    nid: NodeId,
    fuel: nat,
) -> GenApiResult<bool>
    decreases fuel, 0nat, 0nat,
{
    if fuel == 0 {
        Err(GenApiError::InvalidNode)
    } else {
        match node_at(nodes, nid) {
            Some(NodeData::Integer(n)) => if !elem_readable(n.elem_base) {
                Ok(false)
            } else {
                kind_readable(nodes, values, n.value_kind, (fuel - 1) as nat)
            },
            Some(NodeData::Enumeration(n)) => if !elem_readable(n.elem_base) {
                Ok(false)
            } else {
                source_readable(nodes, values, n.value, (fuel - 1) as nat)
            },
            Some(NodeData::IntReg(n)) => Ok(
                elem_readable(n.register_base.elem_base) && n.register_base.access_mode
                    != AccessMode::WO,
            ),
            _ => Err(GenApiError::InvalidNode),
        }
    }
}

pub open spec fn source_readable(
    nodes: Seq<Option<NodeData>>,
    values: Seq<ValueData>,
    src: ImmOrPNode<IntegerId>,
    fuel: nat,
) -> GenApiResult<bool>
    decreases fuel, 1nat, 0nat,
{
    match src {
        ImmOrPNode::Imm(_) => Ok(true),
        ImmOrPNode::PNode(n) => node_readable(nodes, values, n, fuel),
    }
}

pub open spec fn kind_readable(
    nodes: Seq<Option<NodeData>>,
    values: Seq<ValueData>,
    kind: ValueKind<IntegerId>,
    fuel: nat,
) -> GenApiResult<bool>
    decreases fuel, 2nat, 0nat,
{
    match kind {
        ValueKind::Value(_) => Ok(true),
        ValueKind::PValue(p) => node_readable(nodes, values, p.p_value, fuel),
        ValueKind::PIndex(p) => node_readable(nodes, values, p.p_index, fuel),
    }
}

/// Whether node `nid` can be written: its element base allows it and so does
/// every node that a write reaches.
pub open spec fn node_writable(
    nodes: Seq<Option<NodeData>>,
    values: Seq<ValueData>,
    nid: NodeId,
    fuel: nat,
) -> GenApiResult<bool>
    decreases fuel, 0nat, 0nat,
{
    if fuel == 0 {
        Err(GenApiError::InvalidNode)
    } else {
        match node_at(nodes, nid) {
            Some(NodeData::Integer(n)) => if !elem_writable(n.elem_base) {
                Ok(false)
            } else {
                kind_writable(nodes, values, n.value_kind, (fuel - 1) as nat)
            },
            Some(NodeData::Enumeration(n)) => if !elem_writable(n.elem_base) {
                Ok(false)
            } else {
                source_writable(nodes, values, n.value, (fuel - 1) as nat)
            },
            Some(NodeData::IntReg(n)) => Ok(
                elem_writable(n.register_base.elem_base) && n.register_base.access_mode
                    != AccessMode::RO,
            ),
            _ => Err(GenApiError::InvalidNode),
        }
    }
}

pub open spec fn source_writable(
    nodes: Seq<Option<NodeData>>,
    values: Seq<ValueData>,
    src: ImmOrPNode<IntegerId>,
    fuel: nat,
) -> GenApiResult<bool>
    decreases fuel, 1nat, 0nat,
{
    match src {
        ImmOrPNode::Imm(_) => Ok(true),
        ImmOrPNode::PNode(n) => node_writable(nodes, values, n, fuel),
    }
}

/// Every node of `copies` can be written (the first that cannot, or fails,
/// decides).
pub open spec fn copies_writable(
    nodes: Seq<Option<NodeData>>,
    values: Seq<ValueData>,
    copies: Seq<NodeId>,
    fuel: nat,
) -> GenApiResult<bool>
    decreases fuel, 1nat, copies.len(),
{
    if copies.len() == 0 {
        Ok(true)
    } else {
        match copies_writable(nodes, values, copies.drop_last(), fuel) {
            Ok(true) => node_writable(nodes, values, copies.last(), fuel),
            other => other,
        }
    }
}

pub open spec fn kind_writable(
    nodes: Seq<Option<NodeData>>,
    values: Seq<ValueData>,
    kind: ValueKind<IntegerId>,
    fuel: nat,
) -> GenApiResult<bool>
    decreases fuel, 2nat, 0nat,
{
    match kind {
        ValueKind::Value(_) => Ok(true),
        ValueKind::PValue(p) => match node_writable(nodes, values, p.p_value, fuel) {
            Ok(true) => copies_writable(nodes, values, p.p_value_copies@, fuel),
            other => other,
        },
        ValueKind::PIndex(p) => node_readable(nodes, values, p.p_index, fuel),
    }
}

pub(crate) fn node_readable_exec(
    nid: NodeId,
    store: &DefaultNodeStore,
    values: &DefaultValueStore,
    fuel: usize,
) -> (r: GenApiResult<bool>)
    ensures
        r == node_readable(store.nodes(), values.values(), nid, fuel as nat),
    decreases fuel, 0nat, 0nat,
{
    if fuel == 0 {
        return Err(GenApiError::InvalidNode);
    }
    match store.node_opt(nid) {
        Some(NodeData::Integer(n)) => if !n.elem_base.is_readable() {
            Ok(false)
        } else {
            kind_readable_exec(&n.value_kind, store, values, fuel - 1)
        },
        Some(NodeData::Enumeration(n)) => if !n.elem_base.is_readable() {
            Ok(false)
        } else {
            source_readable_exec(n.value, store, values, fuel - 1)
        },
        Some(NodeData::IntReg(n)) => Ok(
            n.register_base.elem_base.is_readable() && n.register_base.access_mode
                != AccessMode::WO,
        ),
        _ => Err(GenApiError::InvalidNode),
    }
}

pub(crate) fn source_readable_exec(
    src: ImmOrPNode<IntegerId>,
    store: &DefaultNodeStore,
    values: &DefaultValueStore,
    fuel: usize,
) -> (r: GenApiResult<bool>)
    ensures
        r == source_readable(store.nodes(), values.values(), src, fuel as nat),
    decreases fuel, 1nat, 0nat,
{
    match src {
        ImmOrPNode::Imm(_) => Ok(true),
        ImmOrPNode::PNode(n) => node_readable_exec(n, store, values, fuel),
    }
}

pub(crate) fn kind_readable_exec(
    kind: &ValueKind<IntegerId>,
    store: &DefaultNodeStore,
    values: &DefaultValueStore,
    fuel: usize,
) -> (r: GenApiResult<bool>)
    ensures
        r == kind_readable(store.nodes(), values.values(), *kind, fuel as nat),
    decreases fuel, 2nat, 0nat,
{
    match kind {
        ValueKind::Value(_) => Ok(true),
        ValueKind::PValue(p) => node_readable_exec(p.p_value, store, values, fuel),
        ValueKind::PIndex(p) => node_readable_exec(p.p_index, store, values, fuel),
    }
}

pub(crate) fn node_writable_exec(
    nid: NodeId,
    store: &DefaultNodeStore,
    values: &DefaultValueStore,
    fuel: usize,
) -> (r: GenApiResult<bool>)
    ensures
        r == node_writable(store.nodes(), values.values(), nid, fuel as nat),
    decreases fuel, 0nat, 0nat,
{
    if fuel == 0 {
        return Err(GenApiError::InvalidNode);
    }
    match store.node_opt(nid) {
        Some(NodeData::Integer(n)) => if !n.elem_base.is_writable() {
            Ok(false)
        } else {
            kind_writable_exec(&n.value_kind, store, values, fuel - 1)
        },
        Some(NodeData::Enumeration(n)) => if !n.elem_base.is_writable() {
            Ok(false)
        } else {
            source_writable_exec(n.value, store, values, fuel - 1)
        },
        Some(NodeData::IntReg(n)) => Ok(
            n.register_base.elem_base.is_writable() && n.register_base.access_mode
                != AccessMode::RO,
        ),
        _ => Err(GenApiError::InvalidNode),
    }
}

pub(crate) fn source_writable_exec(
    src: ImmOrPNode<IntegerId>,
    store: &DefaultNodeStore,
    values: &DefaultValueStore,
    fuel: usize,
) -> (r: GenApiResult<bool>)
    ensures
        r == source_writable(store.nodes(), values.values(), src, fuel as nat),
    decreases fuel, 1nat, 0nat,
{
    match src {
        ImmOrPNode::Imm(_) => Ok(true),
        ImmOrPNode::PNode(n) => node_writable_exec(n, store, values, fuel),
    }
}

proof fn lemma_copies_writable_stops(
    nodes: Seq<Option<NodeData>>,
    values: Seq<ValueData>,
    copies: Seq<NodeId>,
    i: int,
    fuel: nat,
)
    requires
        0 <= i <= copies.len(),
        copies_writable(nodes, values, copies.subrange(0, i), fuel) != Ok::<bool, GenApiError>(
            true,
        ),
    ensures
        copies_writable(nodes, values, copies, fuel) == copies_writable(
            nodes,
            values,
            copies.subrange(0, i),
            fuel,
        ),
    decreases copies.len() - i,
{
    if i < copies.len() {
        let pre = copies.subrange(0, i + 1);
        assert(pre.drop_last() =~= copies.subrange(0, i));
        lemma_copies_writable_stops(nodes, values, copies, i + 1, fuel);
    } else {
        assert(copies.subrange(0, i) =~= copies);
    }
}

fn copies_writable_exec(
    copies: &Vec<NodeId>,
    store: &DefaultNodeStore,
    values: &DefaultValueStore,
    fuel: usize,
) -> (r: GenApiResult<bool>)
    ensures
        r == copies_writable(store.nodes(), values.values(), copies@, fuel as nat),
    decreases fuel, 1nat, copies@.len(),
{
    let mut i: usize = 0;
    assert(copies@.subrange(0, 0).len() == 0);
    while i < copies.len()
        invariant
            i <= copies@.len(),
            copies_writable(store.nodes(), values.values(), copies@.subrange(0, i as int), fuel as nat)
                == Ok::<bool, GenApiError>(true),
        decreases copies@.len() - i,
    {
        let ghost pre = copies@.subrange(0, i + 1);
        assert(pre.drop_last() =~= copies@.subrange(0, i as int));
        let w = node_writable_exec(copies[i], store, values, fuel);
        match w {
            Ok(true) => {},
            _ => {
                proof {
                    lemma_copies_writable_stops(store.nodes(), values.values(), copies@, i + 1, fuel as nat);
                }
                return w;
            },
        }
        i = i + 1;
    }
    assert(copies@.subrange(0, i as int) =~= copies@);
    Ok(true)
}

pub(crate) fn kind_writable_exec(
    kind: &ValueKind<IntegerId>,
    store: &DefaultNodeStore,
    values: &DefaultValueStore,
    fuel: usize,
) -> (r: GenApiResult<bool>)
    ensures
        r == kind_writable(store.nodes(), values.values(), *kind, fuel as nat),
    decreases fuel, 2nat, 0nat,
{
    match kind {
        ValueKind::Value(_) => Ok(true),
        ValueKind::PValue(p) => match node_writable_exec(p.p_value, store, values, fuel) {
            Ok(true) => copies_writable_exec(&p.p_value_copies, store, values, fuel),
            other => other,
        },
        ValueKind::PIndex(p) => node_readable_exec(p.p_index, store, values, fuel),
    }
}

/// Whether the integer or enumeration node `nid` can be read; any other
/// node is `InvalidNode`.
pub fn is_nid_readable<C: CacheStore>(nid: NodeId, store: &DefaultNodeStore, cx: &ValueCtxt<C>) -> (r:
    GenApiResult<bool>)
    ensures
        r == node_readable(store.nodes(), cx.values(), nid, store.nodes().len()),
{
    node_readable_exec(nid, store, &cx.value_store, store.len())
}

/// Whether the integer or enumeration node `nid` can be written; any other
/// node is `InvalidNode`.
pub fn is_nid_writable<C: CacheStore>(nid: NodeId, store: &DefaultNodeStore, cx: &ValueCtxt<C>) -> (r:
    GenApiResult<bool>)
    ensures
        r == node_writable(store.nodes(), cx.values(), nid, store.nodes().len()),
{
    node_writable_exec(nid, store, &cx.value_store, store.len())
}

/// What the readability of a node's value source is, by the kind of node.
pub open spec fn value_source_readable(
    nodes: Seq<Option<NodeData>>,
    values: Seq<ValueData>,
    d: NodeData,
    fuel: nat,
) -> GenApiResult<bool> {
    match d {
        NodeData::Integer(n) => kind_readable(nodes, values, n.value_kind, fuel),
        NodeData::Enumeration(n) => source_readable(nodes, values, n.value, fuel),
        NodeData::EnumEntry(_) => Err(GenApiError::InvalidNode),
        NodeData::IntReg(n) => Ok(n.register_base.access_mode != AccessMode::WO),
    }
}

/// A readable node has a readable element base and a readable value source.
pub proof fn lemma_readable_composition(
    nodes: Seq<Option<NodeData>>,
    values: Seq<ValueData>,
    nid: NodeId,
    fuel: nat,
)
    requires
        node_readable(nodes, values, nid, fuel) == Ok::<bool, GenApiError>(true),
    ensures
        fuel > 0,
        node_at(nodes, nid) is Some,
        elem_readable(node_elem_base(node_at(nodes, nid)->Some_0)),
        value_source_readable(nodes, values, node_at(nodes, nid)->Some_0, (fuel - 1) as nat)
            == Ok::<bool, GenApiError>(true),
{
}

/// The integer node `t` takes its value from an immediate handle that the
/// values hold.
pub open spec fn is_plain_int_node(nodes: Seq<Option<NodeData>>, len: nat, t: NodeId) -> bool {
    match node_at(nodes, t) {
        Some(NodeData::Integer(n)) => match n.value_kind {
            ValueKind::Value(id) => id.0 < len,
            _ => false,
        },
        _ => false,
    }
}

/// The handle of a plain integer node.
pub open spec fn plain_handle(nodes: Seq<Option<NodeData>>, t: NodeId) -> IntegerId {
    node_at(nodes, t)->Some_0->Integer_0.value_kind->Value_0
}

proof fn lemma_set_plain(
    nodes: Seq<Option<NodeData>>,
    values: Seq<ValueData>,
    t: NodeId,
    v: i64,
    fuel: nat,
)
    requires
        fuel > 0,
        is_plain_int_node(nodes, values.len(), t),
    ensures
        set_int_node(nodes, values, t, v, fuel) == (
            values.update(plain_handle(nodes, t).0 as int, ValueData::Integer(v)),
            Ok::<(), GenApiError>(()),
        ),
{
}

proof fn lemma_set_copies_plain(
    nodes: Seq<Option<NodeData>>,
    values: Seq<ValueData>,
    copies: Seq<NodeId>,
    v: i64,
    fuel: nat,
)
    requires
        fuel > 0,
        forall|j: int| 0 <= j < copies.len() ==> is_plain_int_node(nodes, values.len(), #[trigger] copies[j]),
    ensures
        set_copies(nodes, values, copies, v, fuel).1 is Ok,
        set_copies(nodes, values, copies, v, fuel).0.len() == values.len(),
        forall|j: int|
            0 <= j < copies.len() ==> set_copies(nodes, values, copies, v, fuel).0[plain_handle(
                nodes,
                #[trigger] copies[j],
            ).0 as int] == ValueData::Integer(v),
        forall|x: int|
            0 <= x < values.len() && values[x] == ValueData::Integer(v) ==> #[trigger] set_copies(
                nodes,
                values,
                copies,
                v,
                fuel,
            ).0[x] == ValueData::Integer(v),
    decreases copies.len(),
{
    if copies.len() > 0 {
        let pre = copies.drop_last();
        assert forall|j: int| 0 <= j < pre.len() implies is_plain_int_node(nodes, values.len(), #[trigger] pre[j]) by {
            assert(pre[j] == copies[j]);
        }
        lemma_set_copies_plain(nodes, values, pre, v, fuel);
        let vs = set_copies(nodes, values, pre, v, fuel).0;
        assert(is_plain_int_node(nodes, values.len(), copies[copies.len() - 1]));
        lemma_set_plain(nodes, vs, copies.last(), v, fuel);
        let out = set_copies(nodes, values, copies, v, fuel).0;
        assert forall|j: int| 0 <= j < copies.len() implies out[plain_handle(nodes, #[trigger] copies[j]).0 as int]
            == ValueData::Integer(v) by {
            if j < pre.len() {
                assert(pre[j] == copies[j]);
            }
        }
    }
}

/// Writing through a value that is copied to other nodes gives the value
/// and every copy the written value, when each of them is a plain integer
/// node.
pub proof fn lemma_pvalue_fan_out(
    nodes: Seq<Option<NodeData>>,
    values: Seq<ValueData>,
    p: crate::elem_type::PValue,
    v: i64,
    fuel: nat,
)
    requires
        fuel > 0,
        is_plain_int_node(nodes, values.len(), p.p_value),
        forall|j: int|
            0 <= j < p.p_value_copies@.len() ==> is_plain_int_node(
                nodes,
                values.len(),
                #[trigger] p.p_value_copies@[j],
            ),
    ensures
        set_kind(nodes, values, ValueKind::PValue(p), v, fuel).1 is Ok,
        int_node_value(
            nodes,
            set_kind(nodes, values, ValueKind::PValue(p), v, fuel).0,
            p.p_value,
            fuel,
        ) == Ok::<i64, GenApiError>(v),
        forall|j: int|
            0 <= j < p.p_value_copies@.len() ==> int_node_value(
                nodes,
                set_kind(nodes, values, ValueKind::PValue(p), v, fuel).0,
                #[trigger] p.p_value_copies@[j],
                fuel,
            ) == Ok::<i64, GenApiError>(v),
{
    lemma_set_plain(nodes, values, p.p_value, v, fuel);
    let vs = values.update(plain_handle(nodes, p.p_value).0 as int, ValueData::Integer(v));
    lemma_set_copies_plain(nodes, vs, p.p_value_copies@, v, fuel);
    let out = set_kind(nodes, values, ValueKind::PValue(p), v, fuel).0;
    assert(out[plain_handle(nodes, p.p_value).0 as int] == ValueData::Integer(v));
    assert forall|j: int| 0 <= j < p.p_value_copies@.len() implies int_node_value(
        nodes,
        out,
        #[trigger] p.p_value_copies@[j],
        fuel,
    ) == Ok::<i64, GenApiError>(v) by {
        assert(out[plain_handle(nodes, p.p_value_copies@[j]).0 as int] == ValueData::Integer(v));
    }
}

impl NodeId {
    /// The name of the node.
    pub fn name(self, store: &DefaultNodeStore) -> (r: &str)
        requires
            self.0 < store.names().len(),
        ensures
            r@ == store.names()[self.0 as int],
    {
        store.name_by_id(self).unwrap()
    }

    /// The node's data, if it is stored.
    pub fn as_inode_kind(self, store: &DefaultNodeStore) -> (r: Option<&NodeData>)
        ensures
            r matches Some(d) ==> node_at(store.nodes(), self) == Some(*d),
            r is None ==> node_at(store.nodes(), self) is None,
    {
        store.node_opt(self)
    }

    pub fn expect_inode_kind(self, store: &DefaultNodeStore) -> (r: GenApiResult<&NodeData>)
        ensures
            r matches Ok(d) ==> node_at(store.nodes(), self) == Some(*d),
            r is Err ==> r == Err::<&NodeData, GenApiError>(GenApiError::InvalidNode) && node_at(
                store.nodes(),
                self,
            ) is None,
    {
        match self.as_inode_kind(store) {
            Some(d) => Ok(d),
            None => Err(GenApiError::InvalidNode),
        }
    }

    /// The node as an integer feature, if it is one.
    pub fn as_iinteger_kind(self, store: &DefaultNodeStore) -> (r: Option<&IntegerNode>)
        ensures
            r matches Some(n) ==> node_at(store.nodes(), self) matches Some(NodeData::Integer(b))
                && *b == *n,
            r is None ==> !(node_at(store.nodes(), self) matches Some(NodeData::Integer(_))),
    {
        match store.node_opt(self) {
            Some(NodeData::Integer(n)) => Some(n),
            _ => None,
        }
    }

    pub fn expect_iinteger_kind(self, store: &DefaultNodeStore) -> (r: GenApiResult<&IntegerNode>)
        ensures
            r matches Ok(n) ==> node_at(store.nodes(), self) matches Some(NodeData::Integer(b))
                && *b == *n,
            r is Err ==> r == Err::<&IntegerNode, GenApiError>(GenApiError::InvalidNode) && !(node_at(
                store.nodes(),
                self,
            ) matches Some(NodeData::Integer(_))),
    {
        match self.as_iinteger_kind(store) {
            Some(n) => Ok(n),
            None => Err(GenApiError::InvalidNode),
        }
    }

    /// The node as an enumeration, if it is one.
    pub fn as_ienumeration_kind(self, store: &DefaultNodeStore) -> (r: Option<&EnumerationNode>)
        ensures
            r matches Some(n) ==> node_at(store.nodes(), self) matches Some(NodeData::Enumeration(b))
                && *b == *n,
            r is None ==> !(node_at(store.nodes(), self) matches Some(NodeData::Enumeration(_))),
    {
        match store.node_opt(self) {
            Some(NodeData::Enumeration(n)) => Some(n),
            _ => None,
        }
    }

    pub fn expect_ienumeration_kind(self, store: &DefaultNodeStore) -> (r: GenApiResult<
        &EnumerationNode,
    >)
        ensures
            r matches Ok(n) ==> node_at(store.nodes(), self) matches Some(NodeData::Enumeration(b))
                && *b == *n,
            r is Err ==> r == Err::<&EnumerationNode, GenApiError>(GenApiError::InvalidNode) && !(
            node_at(store.nodes(), self) matches Some(NodeData::Enumeration(_))),
    {
        match self.as_ienumeration_kind(store) {
            Some(n) => Ok(n),
            None => Err(GenApiError::InvalidNode),
        }
    }

    /// The node as a register, if it is one.
    pub fn as_iregister_kind(self, store: &DefaultNodeStore) -> (r: Option<&IntRegNode>)
        ensures
            r matches Some(n) ==> node_at(store.nodes(), self) matches Some(NodeData::IntReg(b))
                && *b == *n,
            r is None ==> !(node_at(store.nodes(), self) matches Some(NodeData::IntReg(_))),
    {
        match store.node_opt(self) {
            Some(NodeData::IntReg(n)) => Some(n),
            _ => None,
        }
    }

    pub fn expect_iregister_kind(self, store: &DefaultNodeStore) -> (r: GenApiResult<&IntRegNode>)
        ensures
            r matches Ok(n) ==> node_at(store.nodes(), self) matches Some(NodeData::IntReg(b))
                && *b == *n,
            r is Err ==> r == Err::<&IntRegNode, GenApiError>(GenApiError::InvalidNode) && !(
            node_at(store.nodes(), self) matches Some(NodeData::IntReg(_))),
    {
        match self.as_iregister_kind(store) {
            Some(n) => Ok(n),
            None => Err(GenApiError::InvalidNode),
        }
    }

    /// The node as an enumeration entry, if it is one.
    pub fn as_enum_entry(self, store: &DefaultNodeStore) -> (r: Option<&EnumEntryNode>)
        ensures
            r matches Some(n) ==> node_at(store.nodes(), self) matches Some(NodeData::EnumEntry(b))
                && *b == *n,
            r is None ==> !(node_at(store.nodes(), self) matches Some(NodeData::EnumEntry(_))),
    {
        match store.node_opt(self) {
            Some(NodeData::EnumEntry(n)) => Some(n),
            _ => None,
        }
    }

    pub fn expect_enum_entry(self, store: &DefaultNodeStore) -> (r: GenApiResult<&EnumEntryNode>)
        ensures
            r matches Ok(n) ==> node_at(store.nodes(), self) matches Some(NodeData::EnumEntry(b))
                && *b == *n,
            r is Err ==> r == Err::<&EnumEntryNode, GenApiError>(GenApiError::InvalidNode) && !(
            node_at(store.nodes(), self) matches Some(NodeData::EnumEntry(_))),
    {
        match self.as_enum_entry(store) {
            Some(n) => Ok(n),
            None => Err(GenApiError::InvalidNode),
        }
    }
}

/// The value of node `nid` read as a boolean: an integer node is true when
/// it reads `1`. Any other node is `InvalidNode`.
pub fn bool_from_id<C: CacheStore>(nid: NodeId, store: &DefaultNodeStore, cx: &ValueCtxt<C>) -> (r:
    GenApiResult<bool>)
    ensures
        node_at(store.nodes(), nid) matches Some(NodeData::Integer(n)) ==> r == (match kind_value(
            store.nodes(),
            cx.values(),
            n.value_kind,
            store.nodes().len(),
        ) {
            Ok(v) => Ok::<bool, GenApiError>(v == 1),
            Err(e) => Err(e),
        }),
        !(node_at(store.nodes(), nid) matches Some(NodeData::Integer(_))) ==> r == Err::<
            bool,
            GenApiError,
        >(GenApiError::InvalidNode),
{
    match nid.as_iinteger_kind(store) {
        Some(n) => match kind_value_exec(&n.value_kind, store, &cx.value_store, store.len()) {
            Ok(v) => Ok(v == 1),
            Err(e) => Err(e),
        },
        None => Err(GenApiError::InvalidNode),
    }
}

} // verus!
