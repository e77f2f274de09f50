use cameleon_genapi::cache::{CacheSink, CacheStore, DefaultCacheStore};
use cameleon_genapi::store::{
    DefaultValueStore, FloatId, IntegerId, NodeId, StringId, ValueData, ValueId,
};

#[test]
fn value_store_hands_out_positions() {
    let mut vs = DefaultValueStore::new();
    let a = vs.store(ValueData::Integer(10));
    let b = vs.store(ValueData::Str("cam".to_string()));
    let c = vs.store(ValueData::Float(1.5f64.to_bits()));
    assert_eq!(a, ValueId::from_u32(0));
    assert_eq!(b, ValueId::from_u32(1));
    assert_eq!(vs.integer_value(IntegerId::from(a)), Some(10));
    assert_eq!(vs.str_value(StringId::from(b)).map(|s| s.as_str()), Some("cam"));
    assert_eq!(vs.float_value(FloatId::from(c)).map(f64::from_bits), Some(1.5));
    assert_eq!(vs.integer_value(IntegerId::from(b)), None);
    assert_eq!(vs.value_opt(ValueId::from_u32(3)), None);
}

#[test]
fn value_store_update_returns_previous() {
    let mut vs = DefaultValueStore::new();
    let a = vs.store(ValueData::Integer(1));
    assert_eq!(vs.update(a, ValueData::Integer(2)), Some(ValueData::Integer(1)));
    assert_eq!(vs.value_opt(a), Some(&ValueData::Integer(2)));
    assert_eq!(vs.update(ValueId::from_u32(9), ValueData::Boolean(true)), None);
}

#[test]
fn node_id_range() {
    assert_eq!(NodeId::try_from_usize(5), Some(NodeId(5)));
    assert_eq!(NodeId::try_from_usize(u32::MAX as usize - 1), Some(NodeId(u32::MAX - 1)));
    assert_eq!(NodeId::try_from_usize(u32::MAX as usize), None);
    assert_eq!(NodeId(7).to_usize(), 7);
}

#[test]
fn cache_keeps_and_replaces() {
    let mut c = DefaultCacheStore::new();
    let n = NodeId(1);
    c.cache(n, 0x100, 4, &[1, 2, 3, 4]);
    assert_eq!(c.get_cache(n, 0x100, 4), Some(&[1u8, 2, 3, 4][..]));
    assert_eq!(c.get_cache(n, 0x100, 2), None);
    c.cache(n, 0x100, 4, &[9, 9, 9, 9]);
    assert_eq!(c.get_cache(n, 0x100, 4), Some(&[9u8, 9, 9, 9][..]));
}

#[test]
fn cache_invalidation() {
    let mut c = DefaultCacheStore::new();
    let (a, b, m) = (NodeId(1), NodeId(2), NodeId(3));
    c.store_invalidator(a, m);
    c.cache(m, 0, 4, &[1, 1, 1, 1]);
    c.cache(b, 8, 2, &[2, 2]);
    c.invalidate_by(b);
    assert!(c.get_cache(m, 0, 4).is_some());
    c.invalidate_by(a);
    assert_eq!(c.get_cache(m, 0, 4), None);
    assert!(c.get_cache(b, 8, 2).is_some());
    c.invalidate_of(b);
    assert_eq!(c.get_cache(b, 8, 2), None);
    c.cache(b, 8, 2, &[3, 3]);
    c.clear();
    assert_eq!(c.get_cache(b, 8, 2), None);
}

#[test]
fn sink_keeps_nothing() {
    let mut s = CacheSink::new();
    s.store_invalidator(NodeId(0), NodeId(1));
    s.cache(NodeId(0), 0, 1, &[5]);
    assert_eq!(s.get_cache(NodeId(0), 0, 1), None);
    s.invalidate_by(NodeId(0));
    s.invalidate_of(NodeId(0));
    s.clear();
}
