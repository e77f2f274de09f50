use cameleon_genapi::cache::{CacheSink, CacheStore, DefaultCacheStore};
use cameleon_genapi::codec::{Endianness, Sign};
use cameleon_genapi::elem_type::{
    AccessMode, CachingMode, ImmOrPNode, IntegerRepresentation, MergePriority, NameSpace,
    ValueKind, Visibility,
};
use cameleon_genapi::error::{GenApiError, IoErrorKind};
use cameleon_genapi::node::{
    is_nid_readable, is_nid_writable, DefaultNodeStore, EnumerationNode, IntegerNode,
    NodeAttributeBase, NodeData,
    NodeElementBase, ValueCtxt,
};
use cameleon_genapi::elem_type::{PIndex, PValue, ValueIndexed};
use cameleon_genapi::register::{
    read_int_node, read_int_register, read_register, write_int_register, write_register, Device,
    IntRegNode,
};
use cameleon_genapi::register_base::{AddressKind, RegPIndex, RegisterBase};
use cameleon_genapi::store::{DefaultValueStore, IntegerId, NodeId, ValueData};

struct Memory {
    bytes: Vec<u8>,
    reads: usize,
    fail: bool,
}

impl Device for Memory {
    fn read_mem(&mut self, address: i64, buf: &mut [u8]) -> Result<(), IoErrorKind> {
        self.reads += 1;
        if self.fail {
            return Err(IoErrorKind::Timeout);
        }
        let a = address as usize;
        buf.copy_from_slice(&self.bytes[a..a + buf.len()]);
        Ok(())
    }

    fn write_mem(&mut self, address: i64, data: &[u8]) -> Result<(), IoErrorKind> {
        if self.fail {
            return Err(IoErrorKind::Disconnected);
        }
        let a = address as usize;
        self.bytes[a..a + data.len()].copy_from_slice(data);
        Ok(())
    }
}

fn memory() -> Memory {
    Memory { bytes: vec![0; 64], reads: 0, fail: false }
}

fn cx() -> ValueCtxt<DefaultCacheStore> {
    ValueCtxt::new(DefaultValueStore::new(), DefaultCacheStore::new())
}

#[test]
fn cached_read_skips_the_device() {
    let mut dev = memory();
    dev.bytes[4] = 0x2A;
    let mut c = cx();
    let n = NodeId(1);
    assert_eq!(read_int_register(n, 4, 1, CachingMode::WriteThrough, Endianness::LE, Sign::Unsigned, &mut dev, &mut c), Ok(42));
    dev.bytes[4] = 0x00;
    assert_eq!(read_int_register(n, 4, 1, CachingMode::WriteThrough, Endianness::LE, Sign::Unsigned, &mut dev, &mut c), Ok(42));
    assert_eq!(dev.reads, 1);
    assert_eq!(read_int_register(n, 4, 1, CachingMode::NoCache, Endianness::LE, Sign::Unsigned, &mut dev, &mut c), Ok(0));
    assert_eq!(dev.reads, 2);
}

#[test]
fn write_modes_meet_the_cache() {
    let mut dev = memory();
    let mut c = cx();
    let n = NodeId(2);
    write_int_register(n, 8, 2, 0x1234, CachingMode::WriteThrough, Endianness::BE, Sign::Unsigned, &mut dev, &mut c).unwrap();
    assert_eq!(&dev.bytes[8..10], &[0x12, 0x34]);
    assert_eq!(c.cache_store.get_cache(n, 8, 2), Some(&[0x12u8, 0x34][..]));
    write_register(n, 8, &[0, 1], CachingMode::WriteAround, &mut dev, &mut c).unwrap();
    assert_eq!(c.cache_store.get_cache(n, 8, 2), None);
    write_register(n, 8, &[5, 6], CachingMode::NoCache, &mut dev, &mut c).unwrap();
    assert_eq!(c.cache_store.get_cache(n, 8, 2), None);
    assert_eq!(read_register(n, 8, 2, CachingMode::WriteThrough, &mut dev, &mut c), Ok(vec![5, 6]));
}

#[test]
fn device_failures_leave_the_cache() {
    let mut dev = memory();
    let mut c = cx();
    let n = NodeId(3);
    c.cache_store.cache(n, 0, 1, &[9]);
    dev.fail = true;
    assert_eq!(
        write_register(n, 0, &[1], CachingMode::WriteThrough, &mut dev, &mut c),
        Err(GenApiError::Io(IoErrorKind::Disconnected))
    );
    assert_eq!(c.cache_store.get_cache(n, 0, 1), Some(&[9u8][..]));
    assert_eq!(
        read_register(n, 0, 4, CachingMode::WriteThrough, &mut dev, &mut c),
        Err(GenApiError::Io(IoErrorKind::Timeout))
    );
}

#[test]
fn odd_register_widths() {
    let mut dev = memory();
    let mut c = cx();
    assert_eq!(
        write_int_register(NodeId(4), 0, 3, 1, CachingMode::WriteThrough, Endianness::LE, Sign::Signed, &mut dev, &mut c),
        Err(GenApiError::InvalidBuffer)
    );
    assert_eq!(
        read_int_register(NodeId(4), 0, 3, CachingMode::WriteThrough, Endianness::LE, Sign::Signed, &mut dev, &mut c),
        Err(GenApiError::InvalidBuffer)
    );
}

#[test]
fn sink_always_reads_the_device() {
    let mut dev = memory();
    let mut c = ValueCtxt::new(DefaultValueStore::new(), CacheSink::new());
    dev.bytes[0] = 0xFE;
    assert_eq!(read_int_register(NodeId(5), 0, 1, CachingMode::WriteThrough, Endianness::LE, Sign::Signed, &mut dev, &mut c), Ok(-2));
    assert_eq!(read_int_register(NodeId(5), 0, 1, CachingMode::WriteThrough, Endianness::LE, Sign::Signed, &mut dev, &mut c), Ok(-2));
    assert_eq!(dev.reads, 2);
}

fn element() -> NodeElementBase {
    NodeElementBase {
        tool_tip: None,
        description: None,
        display_name: None,
        visibility: Visibility::Guru,
        imposed_access_mode: AccessMode::RW,
        is_implemented: true,
        is_available: true,
        is_locked: false,
        p_invalidators: Vec::new(),
    }
}

fn int_reg(id: NodeId, kinds: Vec<AddressKind>, length: i64, access: AccessMode) -> IntRegNode {
    IntRegNode {
        attr_base: NodeAttributeBase { id, name_space: NameSpace::Custom, merge_priority: MergePriority::Mid },
        register_base: RegisterBase {
            elem_base: element(),
            streamable: false,
            address_kinds: kinds,
            length: ImmOrPNode::Imm(length),
            access_mode: access,
            p_port: "Device".to_string(),
            cacheable: CachingMode::WriteThrough,
            polling_time: None,
            p_invalidators: Vec::new(),
        },
        sign: Sign::Unsigned,
        endianness: Endianness::LE,
        unit: None,
        representation: IntegerRepresentation::HexNumber,
        p_selected: Vec::new(),
    }
}

#[test]
fn register_address_adds_terms() {
    let mut nodes = DefaultNodeStore::new();
    let mut c = cx();
    let sel = nodes.get_or_intern("Selector");
    let h = IntegerId::from(c.value_store.store(ValueData::Integer(3)));
    let node = IntegerNode {
        attr_base: NodeAttributeBase { id: sel, name_space: NameSpace::Custom, merge_priority: MergePriority::Mid },
        elem_base: element(),
        streamable: false,
        value_kind: ValueKind::Value(h),
        min: ImmOrPNode::Imm(h),
        max: ImmOrPNode::Imm(h),
        inc: ImmOrPNode::Imm(1),
        unit: None,
        representation: IntegerRepresentation::Linear,
        p_selected: Vec::new(),
    };
    nodes.store_node(sel, NodeData::Integer(Box::new(node)));
    let reg = int_reg(
        NodeId(10),
        vec![
            AddressKind::Address(ImmOrPNode::Imm(0x10)),
            AddressKind::PIndex(RegPIndex { offset: Some(ImmOrPNode::Imm(4)), p_index: sel }),
            AddressKind::PIndex(RegPIndex { offset: None, p_index: sel }),
        ],
        2,
        AccessMode::RW,
    );
    assert_eq!(reg.location(&nodes, &c), Ok((0x10 + 12 + 6, 2)));
    let mut dev = memory();
    reg.set_value(0xBEEF, &mut dev, &nodes, &mut c).unwrap();
    assert_eq!(&dev.bytes[34..36], &[0xEF, 0xBE]);
    assert_eq!(reg.value(&mut dev, &nodes, &mut c), Ok(0xBEEF));
}

#[test]
fn register_access_modes() {
    let nodes = DefaultNodeStore::new();
    let mut c = cx();
    let mut dev = memory();
    let ro = int_reg(NodeId(1), vec![AddressKind::Address(ImmOrPNode::Imm(0))], 4, AccessMode::RO);
    assert_eq!(ro.set_value(1, &mut dev, &nodes, &mut c), Err(GenApiError::NotWritable));
    assert_eq!(ro.value(&mut dev, &nodes, &mut c), Ok(0));
    let wo = int_reg(NodeId(2), vec![AddressKind::Address(ImmOrPNode::Imm(0))], 4, AccessMode::WO);
    assert_eq!(wo.value(&mut dev, &nodes, &mut c), Err(GenApiError::NotReadable));
    let odd = int_reg(NodeId(3), vec![AddressKind::Address(ImmOrPNode::Imm(0))], 3, AccessMode::RW);
    assert_eq!(odd.value(&mut dev, &nodes, &mut c), Err(GenApiError::InvalidBuffer));
    let knife = int_reg(NodeId(4), vec![AddressKind::IntSwissKnife(NodeId(9))], 4, AccessMode::RW);
    assert_eq!(knife.value(&mut dev, &nodes, &mut c), Err(GenApiError::InvalidNode));
    let far = int_reg(
        NodeId(5),
        vec![AddressKind::Address(ImmOrPNode::Imm(i64::MAX)), AddressKind::Address(ImmOrPNode::Imm(1))],
        4,
        AccessMode::RW,
    );
    assert_eq!(far.location(&nodes, &c), Err(GenApiError::InvalidData));
}

#[test]
fn register_node_in_the_graph() {
    let mut nodes = DefaultNodeStore::new();
    let c = cx();
    let id = nodes.get_or_intern("DeviceTemperatureRaw");
    let reg = int_reg(id, vec![AddressKind::Address(ImmOrPNode::Imm(0))], 4, AccessMode::RO);
    nodes.store_node(id, NodeData::IntReg(Box::new(reg)));
    assert_eq!(is_nid_readable(id, &nodes, &c), Ok(true));
    assert_eq!(is_nid_writable(id, &nodes, &c), Ok(false));
    assert!(id.expect_iregister_kind(&nodes).is_ok());
    assert_eq!(id.expect_iinteger_kind(&nodes).err(), Some(GenApiError::InvalidNode));
}

#[test]
fn eval_result_on_register_is_invalid_node() {
    let mut nodes = DefaultNodeStore::new();
    let mut c = cx();
    let id = nodes.get_or_intern("Reg");
    let reg = int_reg(id, vec![AddressKind::Address(ImmOrPNode::Imm(0))], 4, AccessMode::RW);
    nodes.store_node(id, NodeData::IntReg(Box::new(reg)));
    assert_eq!(
        cameleon_genapi::formula_env::set_eval_result(id, 1, &nodes, &mut c),
        Err(GenApiError::InvalidNode)
    );
}

#[test]
fn integer_reads_through_registers() {
    let mut nodes = DefaultNodeStore::new();
    let mut c = cx();
    let mut dev = memory();
    dev.bytes[8] = 7;
    dev.bytes[12] = 1;
    let value_reg = nodes.get_or_intern("ValueReg");
    nodes.store_node(value_reg, NodeData::IntReg(Box::new(int_reg(value_reg, vec![AddressKind::Address(ImmOrPNode::Imm(8))], 4, AccessMode::RO))));
    let index_reg = nodes.get_or_intern("IndexReg");
    nodes.store_node(index_reg, NodeData::IntReg(Box::new(int_reg(index_reg, vec![AddressKind::Address(ImmOrPNode::Imm(12))], 1, AccessMode::RW))));
    let h = IntegerId::from(c.value_store.store(ValueData::Integer(-5)));
    let p = nodes.get_or_intern("Gain");
    let mut node = IntegerNode {
        attr_base: NodeAttributeBase { id: p, name_space: NameSpace::Custom, merge_priority: MergePriority::Mid },
        elem_base: element(),
        streamable: false,
        value_kind: ValueKind::PValue(PValue { p_value: value_reg, p_value_copies: Vec::new() }),
        min: ImmOrPNode::Imm(h),
        max: ImmOrPNode::Imm(h),
        inc: ImmOrPNode::Imm(1),
        unit: None,
        representation: IntegerRepresentation::Linear,
        p_selected: Vec::new(),
    };
    assert_eq!(node.value(&nodes, &c), Err(GenApiError::InvalidNode));
    assert_eq!(node.read_value(&mut dev, &nodes, &mut c), Ok(7));
    assert_eq!(read_int_node(index_reg, &mut dev, &nodes, &mut c), Ok(1));
    node.value_kind = ValueKind::PIndex(PIndex {
        p_index: index_reg,
        value_indexed: vec![ValueIndexed { index: 1, indexed: ImmOrPNode::PNode(value_reg) }],
        value_default: ImmOrPNode::Imm(h),
    });
    assert_eq!(node.read_value(&mut dev, &nodes, &mut c), Ok(7));
    dev.bytes[12] = 2;
    c.cache_store.clear();
    assert_eq!(node.read_value(&mut dev, &nodes, &mut c), Ok(-5));
    dev.fail = true;
    c.cache_store.clear();
    assert_eq!(node.read_value(&mut dev, &nodes, &mut c), Err(GenApiError::Io(IoErrorKind::Timeout)));
}

#[test]
fn enumeration_reads_through_register() {
    let mut nodes = DefaultNodeStore::new();
    let mut c = cx();
    let mut dev = memory();
    dev.bytes[0] = 3;
    let reg = nodes.get_or_intern("FormatReg");
    nodes.store_node(reg, NodeData::IntReg(Box::new(int_reg(reg, vec![AddressKind::Address(ImmOrPNode::Imm(0))], 1, AccessMode::RW))));
    let id = nodes.get_or_intern("Format");
    let e = EnumerationNode {
        attr_base: NodeAttributeBase { id, name_space: NameSpace::Custom, merge_priority: MergePriority::Mid },
        elem_base: element(),
        streamable: false,
        entries: Vec::new(),
        value: ImmOrPNode::PNode(reg),
        p_selected: Vec::new(),
        polling_time: None,
    };
    assert_eq!(e.current_value(&nodes, &c), Err(GenApiError::InvalidNode));
    assert_eq!(e.read_current_value(&mut dev, &nodes, &mut c), Ok(3));
}
