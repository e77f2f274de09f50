use cameleon_genapi::cache::DefaultCacheStore;
use cameleon_genapi::elem_type::{
    AccessMode, ImmOrPNode, IntegerRepresentation, MergePriority, NameSpace, NamedValue, ValueKind,
    Visibility,
};
use cameleon_genapi::error::GenApiError;
use cameleon_genapi::formula_env::{expr_from_nid, set_eval_result, FormulaEnvCollector, FormulaValue};
use cameleon_genapi::node::{
    DefaultNodeStore, EnumEntryNode, EnumerationNode, IntegerNode, NodeAttributeBase, NodeData,
    NodeElementBase, ValueCtxt,
};
use cameleon_genapi::store::{DefaultValueStore, IntegerId, NodeId, ValueData};
use cameleon_genapi::variable::VariableKind;

fn base(id: NodeId) -> (NodeAttributeBase, NodeElementBase) {
    (
        NodeAttributeBase { id, name_space: NameSpace::Standard, merge_priority: MergePriority::Mid },
        NodeElementBase {
            tool_tip: None,
            description: None,
            display_name: None,
            visibility: Visibility::Expert,
            imposed_access_mode: AccessMode::RW,
            is_implemented: true,
            is_available: true,
            is_locked: false,
            p_invalidators: Vec::new(),
        },
    )
}

struct Fixture {
    nodes: DefaultNodeStore,
    cx: ValueCtxt<DefaultCacheStore>,
    width: NodeId,
    format: NodeId,
}

fn fixture() -> Fixture {
    let mut nodes = DefaultNodeStore::new();
    let mut vs = DefaultValueStore::new();
    let width = nodes.get_or_intern("Width");
    let value = IntegerId::from(vs.store(ValueData::Integer(640)));
    let min = IntegerId::from(vs.store(ValueData::Integer(16)));
    let max = IntegerId::from(vs.store(ValueData::Integer(4096)));
    let (attr_base, elem_base) = base(width);
    let node = IntegerNode {
        attr_base,
        elem_base,
        streamable: true,
        value_kind: ValueKind::Value(value),
        min: ImmOrPNode::Imm(min),
        max: ImmOrPNode::Imm(max),
        inc: ImmOrPNode::Imm(8),
        unit: None,
        representation: IntegerRepresentation::Linear,
        p_selected: Vec::new(),
    };
    nodes.store_node(width, NodeData::Integer(Box::new(node)));

    let format = nodes.get_or_intern("PixelFormat");
    let mut entries = Vec::new();
    for (name, v, numeric) in [("Mono8", 1i64, None), ("RGB8", 2, Some(2.5f64.to_bits()))] {
        let id = nodes.get_or_intern(name);
        let (attr_base, elem_base) = base(id);
        let e = EnumEntryNode {
            attr_base,
            elem_base,
            value: v,
            numeric_value: numeric,
            symbolic: name.to_string(),
            is_self_clearing: false,
        };
        nodes.store_node(id, NodeData::EnumEntry(Box::new(e)));
        entries.push(id);
    }
    let current = IntegerId::from(vs.store(ValueData::Integer(1)));
    let (attr_base, elem_base) = base(format);
    let e = EnumerationNode {
        attr_base,
        elem_base,
        streamable: false,
        entries,
        value: ImmOrPNode::Imm(current),
        p_selected: Vec::new(),
        polling_time: Some(100),
    };
    nodes.store_node(format, NodeData::Enumeration(Box::new(e)));
    Fixture { nodes, cx: ValueCtxt::new(vs, DefaultCacheStore::new()), width, format }
}

#[test]
fn variable_values_from_graph() {
    let f = fixture();
    assert_eq!(VariableKind::Value.get_value(f.width, &f.nodes, &f.cx), Ok(FormulaValue::Integer(640)));
    assert_eq!(VariableKind::Min.get_value(f.width, &f.nodes, &f.cx), Ok(FormulaValue::Integer(16)));
    assert_eq!(VariableKind::Max.get_value(f.width, &f.nodes, &f.cx), Ok(FormulaValue::Integer(4096)));
    assert_eq!(VariableKind::Inc.get_value(f.width, &f.nodes, &f.cx), Ok(FormulaValue::Integer(8)));
    assert_eq!(
        VariableKind::Enum("RGB8".to_string()).get_value(f.format, &f.nodes, &f.cx),
        Ok(FormulaValue::Integer(2))
    );
    assert_eq!(
        VariableKind::Enum("YUV".to_string()).get_value(f.format, &f.nodes, &f.cx),
        Err(GenApiError::InvalidNode)
    );
    assert_eq!(VariableKind::Min.get_value(f.format, &f.nodes, &f.cx), Err(GenApiError::InvalidNode));
}

#[test]
fn enumeration_value_is_entry_numeric() {
    let mut f = fixture();
    assert_eq!(expr_from_nid(f.format, &f.nodes, &f.cx), Ok(FormulaValue::IntegerAsFloat(1)));
    set_eval_result(f.format, 2, &f.nodes, &mut f.cx).unwrap();
    assert_eq!(expr_from_nid(f.format, &f.nodes, &f.cx), Ok(FormulaValue::Float(2.5f64.to_bits())));
    assert_eq!(set_eval_result(f.format, 9, &f.nodes, &mut f.cx), Err(GenApiError::InvalidData));
}

#[test]
fn eval_result_written_to_integer() {
    let mut f = fixture();
    set_eval_result(f.width, 1280, &f.nodes, &mut f.cx).unwrap();
    assert_eq!(expr_from_nid(f.width, &f.nodes, &f.cx), Ok(FormulaValue::Integer(1280)));
    assert_eq!(set_eval_result(NodeId(77), 1, &f.nodes, &mut f.cx), Err(GenApiError::InvalidNode));
}

#[test]
fn environment_collects_variables_then_constants() {
    let f = fixture();
    let vars = vec![
        NamedValue { name: "W".to_string(), value: f.width },
        NamedValue { name: "F.Enum.Mono8".to_string(), value: f.format },
    ];
    let consts = vec![NamedValue { name: "K".to_string(), value: FormulaValue::Integer(3) }];
    let mut c = FormulaEnvCollector::new(vars, consts);
    assert_eq!(c.is_readable(&f.nodes, &f.cx), Ok(true));
    c.insert_imm("Z".to_string(), FormulaValue::Integer(0));
    c.insert("Fmt".to_string(), f.format, &f.nodes, &f.cx).unwrap();
    let env = c.collect(&f.nodes, &f.cx).unwrap();
    assert_eq!(
        env,
        vec![
            ("Z".to_string(), FormulaValue::Integer(0)),
            ("Fmt".to_string(), FormulaValue::IntegerAsFloat(1)),
            ("W".to_string(), FormulaValue::Integer(640)),
            ("F.Enum.Mono8".to_string(), FormulaValue::Integer(1)),
            ("K".to_string(), FormulaValue::Integer(3)),
        ]
    );
}

#[test]
fn environment_reports_bad_variable() {
    let f = fixture();
    let vars = vec![NamedValue { name: "W.Bogus".to_string(), value: f.width }];
    let c = FormulaEnvCollector::new(vars, Vec::new());
    assert_eq!(c.collect(&f.nodes, &f.cx), Err(GenApiError::InvalidNode));
    let missing = vec![NamedValue { name: "M".to_string(), value: NodeId(99) }];
    let c = FormulaEnvCollector::new(missing, Vec::new());
    assert_eq!(c.is_readable(&f.nodes, &f.cx), Err(GenApiError::InvalidNode));
}
