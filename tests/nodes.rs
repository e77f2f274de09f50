use cameleon_genapi::cache::{CacheStore, DefaultCacheStore};
use cameleon_genapi::elem_type::{
    AccessMode, ImmOrPNode, IntegerRepresentation, MergePriority, NameSpace, PIndex, PValue,
    ValueIndexed, ValueKind, Visibility,
};
use cameleon_genapi::error::GenApiError;
use cameleon_genapi::node::{
    bool_from_id, is_nid_readable, is_nid_writable, DefaultNodeStore, EnumEntryNode,
    EnumerationNode, IntegerNode, NodeAttributeBase, NodeData, NodeElementBase, ValueCtxt,
};
use cameleon_genapi::store::{DefaultValueStore, IntegerId, NodeId, ValueData};

fn elem(mode: AccessMode) -> NodeElementBase {
    NodeElementBase {
        tool_tip: None,
        description: None,
        display_name: None,
        visibility: Visibility::Beginner,
        imposed_access_mode: mode,
        is_implemented: true,
        is_available: true,
        is_locked: false,
        p_invalidators: Vec::new(),
    }
}

fn attr(id: NodeId) -> NodeAttributeBase {
    NodeAttributeBase { id, name_space: NameSpace::Custom, merge_priority: MergePriority::Mid }
}

fn integer(id: NodeId, kind: ValueKind<IntegerId>) -> IntegerNode {
    IntegerNode {
        attr_base: attr(id),
        elem_base: elem(AccessMode::RW),
        streamable: false,
        value_kind: kind,
        min: ImmOrPNode::PNode(id),
        max: ImmOrPNode::PNode(id),
        inc: ImmOrPNode::Imm(1),
        unit: Some("us".to_string()),
        representation: IntegerRepresentation::Linear,
        p_selected: Vec::new(),
    }
}

fn store_int(vs: &mut DefaultValueStore, v: i64) -> IntegerId {
    IntegerId::from(vs.store(ValueData::Integer(v)))
}

struct Graph {
    nodes: DefaultNodeStore,
    cx: ValueCtxt<DefaultCacheStore>,
}

fn plain_node(g: &mut Graph, name: &str, v: i64) -> NodeId {
    let id = g.nodes.get_or_intern(name);
    let h = store_int(&mut g.cx.value_store, v);
    g.nodes.store_node(id, NodeData::Integer(Box::new(integer(id, ValueKind::Value(h)))));
    id
}

fn graph() -> Graph {
    Graph {
        nodes: DefaultNodeStore::new(),
        cx: ValueCtxt::new(DefaultValueStore::new(), DefaultCacheStore::new()),
    }
}

#[test]
fn node_store_interns_names() {
    let mut s = DefaultNodeStore::new();
    let a = s.get_or_intern("Width");
    let b = s.get_or_intern("Height");
    assert_eq!(s.get_or_intern("Width"), a);
    assert_ne!(a, b);
    assert_eq!(s.id_by_name("Height"), Some(b));
    assert_eq!(s.id_by_name("Gain"), None);
    assert_eq!(s.name_by_id(a), Some("Width"));
    assert_eq!(b.name(&s), "Height");
    assert_eq!(s.name_by_id(NodeId(9)), None);
    assert_eq!(s.fresh_id(), 0);
    assert_eq!(s.fresh_id(), 1);
}

#[test]
fn node_store_slots() {
    let mut g = graph();
    let id = NodeId(3);
    let h = store_int(&mut g.cx.value_store, 4);
    g.nodes.store_node(id, NodeData::Integer(Box::new(integer(id, ValueKind::Value(h)))));
    assert_eq!(g.nodes.len(), 4);
    assert!(g.nodes.node_opt(NodeId(1)).is_none());
    assert!(id.as_iinteger_kind(&g.nodes).is_some());
    assert!(id.as_ienumeration_kind(&g.nodes).is_none());
    assert_eq!(NodeId(1).expect_inode_kind(&g.nodes).err(), Some(GenApiError::InvalidNode));
    assert_eq!(g.nodes.node(id).node_base().id(), id);
}

#[test]
fn integer_value_through_pointer() {
    let mut g = graph();
    let a = plain_node(&mut g, "A", 42);
    let p = g.nodes.get_or_intern("P");
    let node = integer(p, ValueKind::PValue(PValue { p_value: a, p_value_copies: Vec::new() }));
    g.nodes.store_node(p, NodeData::Integer(Box::new(node.clone())));
    assert_eq!(node.value(&g.nodes, &g.cx), Ok(42));
    assert_eq!(node.min(&g.nodes, &g.cx), Ok(42));
    assert_eq!(node.inc(&g.nodes, &g.cx), Ok(Some(1)));
    assert_eq!(node.unit(), Some("us"));
    assert_eq!(bool_from_id(p, &g.nodes, &g.cx), Ok(false));
}

#[test]
fn value_copies_all_receive_the_write() {
    let mut g = graph();
    let a = plain_node(&mut g, "A", 0);
    let b = plain_node(&mut g, "B", 0);
    let c = plain_node(&mut g, "C", 0);
    let p = g.nodes.get_or_intern("P");
    let node = integer(p, ValueKind::PValue(PValue { p_value: a, p_value_copies: vec![b, c] }));
    g.nodes.store_node(p, NodeData::Integer(Box::new(node.clone())));
    node.set_value(17, &g.nodes, &mut g.cx).unwrap();
    for t in [a, b, c] {
        let n = t.expect_iinteger_kind(&g.nodes).unwrap();
        assert_eq!(n.value(&g.nodes, &g.cx), Ok(17));
    }
    assert_eq!(bool_from_id(a, &g.nodes, &g.cx), Ok(false));
}

#[test]
fn indexed_value_follows_index() {
    let mut g = graph();
    let idx = plain_node(&mut g, "Selector", 2);
    let h1 = store_int(&mut g.cx.value_store, 100);
    let h2 = store_int(&mut g.cx.value_store, 200);
    let hd = store_int(&mut g.cx.value_store, -1);
    let p = g.nodes.get_or_intern("Indexed");
    let node = integer(
        p,
        ValueKind::PIndex(PIndex {
            p_index: idx,
            value_indexed: vec![
                ValueIndexed { index: 1, indexed: ImmOrPNode::Imm(h1) },
                ValueIndexed { index: 2, indexed: ImmOrPNode::Imm(h2) },
            ],
            value_default: ImmOrPNode::Imm(hd),
        }),
    );
    assert_eq!(node.value(&g.nodes, &g.cx), Ok(200));
    node.set_value(250, &g.nodes, &mut g.cx).unwrap();
    assert_eq!(g.cx.value_store.integer_value(h2), Some(250));
    let sel = idx.expect_iinteger_kind(&g.nodes).unwrap().clone();
    sel.set_value(7, &g.nodes, &mut g.cx).unwrap();
    assert_eq!(node.value(&g.nodes, &g.cx), Ok(-1));
}

#[test]
fn write_clears_invalidated_caches() {
    let mut g = graph();
    let n = plain_node(&mut g, "N", 1);
    let m = NodeId(50);
    let other = NodeId(51);
    g.cx.cache_store.store_invalidator(n, m);
    g.cx.cache_store.cache(m, 0x10, 4, &[1, 2, 3, 4]);
    g.cx.cache_store.cache(other, 0x10, 4, &[5, 6, 7, 8]);
    let node = n.expect_iinteger_kind(&g.nodes).unwrap().clone();
    node.set_value(2, &g.nodes, &mut g.cx).unwrap();
    assert_eq!(g.cx.cache_store.get_cache(m, 0x10, 4), None);
    assert!(g.cx.cache_store.get_cache(other, 0x10, 4).is_some());
}

#[test]
fn cyclic_pointers_are_invalid_node() {
    let mut g = graph();
    let a = g.nodes.get_or_intern("A");
    let b = g.nodes.get_or_intern("B");
    let na = integer(a, ValueKind::PValue(PValue { p_value: b, p_value_copies: Vec::new() }));
    let nb = integer(b, ValueKind::PValue(PValue { p_value: a, p_value_copies: Vec::new() }));
    g.nodes.store_node(a, NodeData::Integer(Box::new(na.clone())));
    g.nodes.store_node(b, NodeData::Integer(Box::new(nb)));
    assert_eq!(na.value(&g.nodes, &g.cx), Err(GenApiError::InvalidNode));
}

#[test]
fn missing_value_handle_is_invalid_data() {
    let g = graph();
    let node = integer(NodeId(0), ValueKind::Value(IntegerId(5)));
    assert_eq!(node.value(&g.nodes, &g.cx), Err(GenApiError::InvalidData));
}

#[test]
fn readability_composes() {
    let mut g = graph();
    let a = plain_node(&mut g, "A", 1);
    let p = g.nodes.get_or_intern("P");
    let mut node = integer(p, ValueKind::PValue(PValue { p_value: a, p_value_copies: Vec::new() }));
    g.nodes.store_node(p, NodeData::Integer(Box::new(node.clone())));
    assert_eq!(node.is_readable(&g.nodes, &g.cx), Ok(true));
    assert_eq!(is_nid_readable(p, &g.nodes, &g.cx), Ok(true));
    node.elem_base.imposed_access_mode = AccessMode::WO;
    assert_eq!(node.is_readable(&g.nodes, &g.cx), Ok(false));
    assert_eq!(node.is_writable(&g.nodes, &g.cx), Ok(true));
    let mut ro = integer(a, ValueKind::Value(IntegerId(0)));
    ro.elem_base.imposed_access_mode = AccessMode::RO;
    g.nodes.store_node(a, NodeData::Integer(Box::new(ro)));
    assert_eq!(is_nid_writable(p, &g.nodes, &g.cx), Ok(false));
    assert_eq!(is_nid_readable(NodeId(99), &g.nodes, &g.cx), Err(GenApiError::InvalidNode));
}

fn entry(g: &mut Graph, name: &str, value: i64) -> NodeId {
    let id = g.nodes.get_or_intern(name);
    let e = EnumEntryNode {
        attr_base: attr(id),
        elem_base: elem(AccessMode::RO),
        value,
        numeric_value: None,
        symbolic: name.to_string(),
        is_self_clearing: false,
    };
    g.nodes.store_node(id, NodeData::EnumEntry(Box::new(e)));
    id
}

fn enumeration(g: &mut Graph) -> EnumerationNode {
    let id = g.nodes.get_or_intern("PixelFormat");
    let mono8 = entry(g, "Mono8", 0x0108_0001);
    let mono16 = entry(g, "Mono16", 0x0110_0007);
    let h = store_int(&mut g.cx.value_store, 0x0108_0001);
    let e = EnumerationNode {
        attr_base: attr(id),
        elem_base: elem(AccessMode::RW),
        streamable: true,
        entries: vec![mono8, mono16],
        value: ImmOrPNode::Imm(h),
        p_selected: Vec::new(),
        polling_time: None,
    };
    g.nodes.store_node(id, NodeData::Enumeration(Box::new(e.clone())));
    e
}

#[test]
fn enumeration_select_by_name() {
    let mut g = graph();
    let e = enumeration(&mut g);
    let cur = e.current_entry(&g.nodes, &g.cx).unwrap();
    assert_eq!(cur.expect_enum_entry(&g.nodes).unwrap().symbolic(), "Mono8");
    e.set_entry_by_symbolic("Mono16", &g.nodes, &mut g.cx).unwrap();
    let cur = e.current_entry(&g.nodes, &g.cx).unwrap();
    assert_eq!(cur.expect_enum_entry(&g.nodes).unwrap().symbolic(), "Mono16");
    assert_eq!(e.current_value(&g.nodes, &g.cx), Ok(0x0110_0007));
    assert_eq!(e.entry_by_symbolic("Mono8", &g.nodes), Some(e.entries()[0]));
}

#[test]
fn enumeration_rejects_unknown_entries() {
    let mut g = graph();
    let e = enumeration(&mut g);
    assert_eq!(e.set_entry_by_symbolic("Mono12", &g.nodes, &mut g.cx), Err(GenApiError::InvalidData));
    assert_eq!(e.set_entry_by_value(5, &g.nodes, &mut g.cx), Err(GenApiError::InvalidData));
    assert_eq!(e.current_value(&g.nodes, &g.cx), Ok(0x0108_0001));
    g.cx.value_store.update(cameleon_genapi::store::ValueId::from_u32(0), ValueData::Integer(3));
    assert_eq!(e.current_entry(&g.nodes, &g.cx), Err(GenApiError::InvalidNode));
    assert_eq!(e.is_readable(&g.nodes, &g.cx), Ok(true));
}

#[test]
fn failed_selection_leaves_context() {
    let mut g = graph();
    let e = enumeration(&mut g);
    let m = NodeId(40);
    g.cx.cache_store.store_invalidator(e.attr_base.id, m);
    g.cx.cache_store.cache(m, 0, 1, &[1]);
    assert_eq!(e.set_entry_by_symbolic("Mono12", &g.nodes, &mut g.cx), Err(GenApiError::InvalidData));
    assert_eq!(g.cx.cache_store.get_cache(m, 0, 1), Some(&[1u8][..]));
    e.set_entry_by_symbolic("Mono16", &g.nodes, &mut g.cx).unwrap();
    assert_eq!(g.cx.cache_store.get_cache(m, 0, 1), None);
}

#[test]
fn partial_write_keeps_earlier_copies() {
    let mut g = graph();
    let a = plain_node(&mut g, "A", 0);
    let p = g.nodes.get_or_intern("P");
    let node = integer(p, ValueKind::PValue(PValue { p_value: a, p_value_copies: vec![NodeId(77)] }));
    assert_eq!(node.set_value(5, &g.nodes, &mut g.cx), Err(GenApiError::InvalidNode));
    let n = a.expect_iinteger_kind(&g.nodes).unwrap();
    assert_eq!(n.value(&g.nodes, &g.cx), Ok(5));
}

#[test]
fn stored_nodes_in_id_order() {
    let mut g = graph();
    let a = plain_node(&mut g, "A", 1);
    let b = plain_node(&mut g, "B", 2);
    g.nodes.store_node(NodeId(5), NodeData::Integer(Box::new(integer(NodeId(5), ValueKind::Value(IntegerId(0))))));
    let ids: Vec<NodeId> = g.nodes.stored_nodes().iter().map(|d| d.node_base().id()).collect();
    assert_eq!(ids, vec![a, b, NodeId(5)]);
}
