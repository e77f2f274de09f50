//! Register reads and writes through a device, under a register's caching
//! mode, and integer registers on top of them.
use vstd::prelude::*;

use crate::cache::{CacheKey, CacheStore};
use crate::codec::{
    byte_base, bytes_from_int, int_from_slice, int_of_bytes, is_int_width, unsigned_value,
    Endianness, Sign,
};
use crate::elem_type::{AccessMode, CachingMode, ImmOrPNode, IntegerRepresentation, ValueKind};
use crate::error::{GenApiError, GenApiResult, IoErrorKind};
use crate::node::{
    imm_value, imm_value_exec, int_node_value, int_node_value_exec, kind_value, node_at,
    node_attr_base, select_indexed, select_indexed_exec, source_value, DefaultNodeStore,
    EnumerationNode, IntegerNode, NodeAttributeBase, NodeBase, NodeData, ValueCtxt,
};
use crate::register_base::{AddressKind, RegisterBase};
use crate::store::{DefaultValueStore, IntegerId, NodeId, ValueData};

verus! {

/// The device that registers are read from and written to.
pub trait Device {
    /// Reads `buf.len()` bytes at `address` into `buf`.
    fn read_mem(&mut self, address: i64, buf: &mut [u8]) -> (r: Result<(), IoErrorKind>)
        ensures
            final(buf)@.len() == old(buf)@.len(),
    ;

    /// Writes `data` at `address`.
    fn write_mem(&mut self, address: i64, data: &[u8]) -> (r: Result<(), IoErrorKind>);
}

/// `after` is `before` with `data` recorded under `key` (when the store
/// keeps entries at all).
pub open spec fn records<C: CacheStore>(before: C, after: C, key: CacheKey, data: Seq<u8>) -> bool {
    &&& after.retains() == before.retains()
    &&& forall|a: NodeId, b: NodeId| #[trigger]
        after.invalidates(a, b) == before.invalidates(a, b)
    &&& forall|k: CacheKey| #[trigger]
        after.cached(k) == if k == key && before.retains() {
            Some(data)
        } else {
            before.cached(k)
        }
}

/// `after` is `before` without the entries of node `nid`.
pub open spec fn drops_node<C: CacheStore>(before: C, after: C, nid: NodeId) -> bool {
    &&& after.retains() == before.retains()
    &&& forall|a: NodeId, b: NodeId| #[trigger]
        after.invalidates(a, b) == before.invalidates(a, b)
    &&& forall|k: CacheKey| #[trigger]
        after.cached(k) == if k.0 == nid {
            None
        } else {
            before.cached(k)
        }
}

/// The result of decoding the bytes `d` as an integer register.
pub open spec fn decoded(d: Seq<u8>, endianness: Endianness, sign: Sign) -> GenApiResult<i64> {
    if is_int_width(d.len()) {
        Ok(int_of_bytes(d, endianness, sign) as i64)
    } else {
        Err(GenApiError::InvalidBuffer)
    }
}

/// Reads `length` bytes of node `nid`'s register at `address`. Unless the
/// mode is `NoCache`, bytes cached under the same node, address and length
/// are used without asking the device, and bytes read from the device are
/// cached.
pub fn read_register<C: CacheStore, D: Device>(
    nid: NodeId,
    address: i64,
    length: usize,
    mode: CachingMode,
    device: &mut D,
    cx: &mut ValueCtxt<C>,
) -> (r: GenApiResult<Vec<u8>>)
    requires
        length <= i64::MAX,
    ensures
        final(cx).values() == old(cx).values(),
        forall|k: CacheKey| k.0 != nid ==> #[trigger] final(cx).cache_store.cached(k) == old(cx).cache_store.cached(k),
        mode != CachingMode::NoCache && old(cx).cache_store.cached((nid, address, length as i64)) is Some
            ==> (r matches Ok(b) && b@ == old(cx).cache_store.cached(
            (nid, address, length as i64),
        )->Some_0 && final(cx).cache_store == old(cx).cache_store),
        mode == CachingMode::NoCache || old(cx).cache_store.cached((nid, address, length as i64))
            is None ==> match r {
            Ok(b) => b@.len() == length && if mode == CachingMode::NoCache {
                final(cx).cache_store == old(cx).cache_store
            } else {
                records(old(cx).cache_store, final(cx).cache_store, (nid, address, length as i64), b@)
            },
            Err(e) => e is Io && final(cx).cache_store == old(cx).cache_store,
        },
{
    let key_len = length as i64;
    if mode != CachingMode::NoCache {
        if let Some(d) = cx.cache_store.get_cache(nid, address, key_len) {
            let mut out: Vec<u8> = Vec::new();
            let mut i: usize = 0;
            while i < d.len()
                invariant
                    i <= d@.len(),
                    out@ == d@.subrange(0, i as int),
                decreases d@.len() - i,
            {
                out.push(d[i]);
                i = i + 1;
                assert(out@ =~= d@.subrange(0, i as int));
            }
            assert(d@.subrange(0, i as int) =~= d@);
            return Ok(out);
        }
    }
    let mut buf: Vec<u8> = vec![0u8; length];
    match device.read_mem(address, buf.as_mut_slice()) {
        Ok(()) => {},
        Err(e) => {
            return Err(GenApiError::Io(e));
        },
    }
    if mode != CachingMode::NoCache {
        cx.cache_store.cache(nid, address, key_len, buf.as_slice());
    }
    Ok(buf)
}

/// Writes `data` to node `nid`'s register at `address`. After the device
/// took it, `WriteThrough` caches the bytes, `WriteAround` drops the node's
/// cached bytes, and `NoCache` leaves the cache alone. A failed device write
/// leaves the cache alone.
pub fn write_register<C: CacheStore, D: Device>(
    nid: NodeId,
    address: i64,
    data: &[u8],
    mode: CachingMode,
    device: &mut D,
    cx: &mut ValueCtxt<C>,
) -> (r: GenApiResult<()>)
    requires
        data@.len() <= i64::MAX,
    ensures
        final(cx).values() == old(cx).values(),
        r matches Err(e) ==> e is Io && final(cx).cache_store == old(cx).cache_store,
        r is Ok && mode == CachingMode::WriteThrough ==> records(
            old(cx).cache_store,
            final(cx).cache_store,
            (nid, address, data@.len() as i64),
            data@,
        ),
        r is Ok && mode == CachingMode::WriteAround ==> drops_node(
            old(cx).cache_store,
            final(cx).cache_store,
            nid,
        ),
        r is Ok && mode == CachingMode::NoCache ==> final(cx).cache_store == old(cx).cache_store,
{
    match device.write_mem(address, data) {
        Ok(()) => {},
        Err(e) => {
            return Err(GenApiError::Io(e));
        },
    }
    match mode {
        CachingMode::WriteThrough => cx.cache_store.cache(nid, address, data.len() as i64, data),
        CachingMode::WriteAround => cx.cache_store.invalidate_of(nid),
        CachingMode::NoCache => {},
    }
    Ok(())
}

/// Reads an integer register of `length` bytes. Whatever the device answers,
/// a value read through a cache that keeps entries is the decoding of the
/// bytes cached for the register afterwards.
pub fn read_int_register<C: CacheStore, D: Device>(
    nid: NodeId,
    address: i64,
    length: usize,
    mode: CachingMode,
    endianness: Endianness,
    sign: Sign,
    device: &mut D,
    cx: &mut ValueCtxt<C>,
) -> (r: GenApiResult<i64>)
    requires
        length <= i64::MAX,
    ensures
        final(cx).values() == old(cx).values(),
        forall|k: CacheKey| k.0 != nid ==> #[trigger] final(cx).cache_store.cached(k) == old(cx).cache_store.cached(k),
        mode != CachingMode::NoCache && old(cx).cache_store.cached((nid, address, length as i64)) is Some
            ==> r == decoded(
            old(cx).cache_store.cached((nid, address, length as i64))->Some_0,
            endianness,
            sign,
        ),
        mode != CachingMode::NoCache && old(cx).cache_store.retains() && r is Ok ==> final(cx).cache_store.cached((nid, address, length as i64)) is Some && r == decoded(
            final(cx).cache_store.cached((nid, address, length as i64))->Some_0,
            endianness,
            sign,
        ),
        !is_int_width(length as nat) && (mode == CachingMode::NoCache || old(cx).cache_store.cached((nid, address, length as i64)) is None) ==> r is Err,
        is_int_width(length as nat) && (mode == CachingMode::NoCache || old(cx).cache_store.cached(
            (nid, address, length as i64),
        ) is None) ==> (r is Ok || (r matches Err(e) && e is Io)),
{
    let bytes = read_register(nid, address, length, mode, device, cx)?;
    int_from_slice(bytes.as_slice(), endianness, sign)
}

/// Writes `value` to an integer register of `length` bytes, truncated to
/// its low bytes. A width other than 1, 2, 4 or 8 is `InvalidBuffer`, and
/// then neither the device nor the cache is touched.
pub fn write_int_register<C: CacheStore, D: Device>(
    nid: NodeId,
    address: i64,
    length: usize,
    value: i64,
    mode: CachingMode,
    endianness: Endianness,
    sign: Sign,
    device: &mut D,
    cx: &mut ValueCtxt<C>,
) -> (r: GenApiResult<()>)
    requires
        length <= i64::MAX,
    ensures
        final(cx).values() == old(cx).values(),
        !is_int_width(length as nat) ==> r == Err::<(), GenApiError>(GenApiError::InvalidBuffer)
            && final(cx).cache_store == old(cx).cache_store,
        is_int_width(length as nat) ==> (r is Ok || (r matches Err(e) && e is Io)),
        r matches Err(e) && e is Io ==> final(cx).cache_store == old(cx).cache_store,
        r is Ok && mode == CachingMode::WriteThrough && old(cx).cache_store.retains() ==> final(cx).cache_store.cached((nid, address, length as i64)) is Some && ({
            let b = final(cx).cache_store.cached((nid, address, length as i64))->Some_0;
            b.len() == length && unsigned_value(b, endianness) == value as int % (byte_base(
                length as nat,
            ) as int)
        }),
        r is Ok && mode == CachingMode::WriteAround ==> drops_node(
            old(cx).cache_store,
            final(cx).cache_store,
            nid,
        ),
        r is Ok && mode == CachingMode::NoCache ==> final(cx).cache_store == old(cx).cache_store,
        forall|k: CacheKey| k.0 != nid ==> #[trigger] final(cx).cache_store.cached(k) == old(cx).cache_store.cached(k),
{
    let mut buf: Vec<u8> = vec![0u8; length];
    let encoded = bytes_from_int(value, buf.as_mut_slice(), endianness, sign);
    if let Err(e) = encoded {
        return Err(e);
    }
    write_register(nid, address, buf.as_slice(), mode, device, cx)
}

/// An integer value given directly or by an integer node.
pub open spec fn int_source_value(
    nodes: Seq<Option<crate::node::NodeData>>,
    values: Seq<ValueData>,
    src: ImmOrPNode<i64>,
    fuel: nat,
) -> GenApiResult<i64> {
    match src {
        ImmOrPNode::Imm(i) => Ok(i),
        ImmOrPNode::PNode(n) => int_node_value(nodes, values, n, fuel),
    }
}

/// One term of a register address. An indexed term is the index times its
/// offset, or times the register length when it gives none; a term computed
/// by a formula node is not supported here.
pub open spec fn address_term(
    nodes: Seq<Option<crate::node::NodeData>>,
    values: Seq<ValueData>,
    kind: AddressKind,
    length: i64,
    fuel: nat,
) -> GenApiResult<int> {
    match kind {
        AddressKind::Address(a) => match int_source_value(nodes, values, a, fuel) {
            Ok(v) => Ok(v as int),
            Err(e) => Err(e),
        },
        AddressKind::IntSwissKnife(_) => Err(GenApiError::InvalidNode),
        AddressKind::PIndex(p) => match int_node_value(nodes, values, p.p_index, fuel) {
            Ok(i) => match p.offset {
                Some(o) => match int_source_value(nodes, values, o, fuel) {
                    Ok(off) => Ok(i as int * off as int),
                    Err(e) => Err(e),
                },
                None => Ok(i as int * length as int),
            },
            Err(e) => Err(e),
        },
    }
}

/// The sum of the address terms, each partial sum an `i64`; an overflow is
/// `InvalidData`.
pub open spec fn register_address(
    nodes: Seq<Option<crate::node::NodeData>>,
    values: Seq<ValueData>,
    kinds: Seq<AddressKind>,
    length: i64,
    fuel: nat,
) -> GenApiResult<i64>
    decreases kinds.len(),
{
    if kinds.len() == 0 {
        Ok(0)
    } else {
        match register_address(nodes, values, kinds.drop_last(), length, fuel) {
            Ok(a) => match address_term(nodes, values, kinds.last(), length, fuel) {
                Ok(t) => if i64::MIN <= a + t <= i64::MAX {
                    Ok((a + t) as i64)
                } else {
                    Err(GenApiError::InvalidData)
                },
                Err(e) => Err(e),
            },
            Err(e) => Err(e),
        }
    }
}

fn int_source_value_exec(
    src: ImmOrPNode<i64>,
    store: &DefaultNodeStore,
    values: &DefaultValueStore,
) -> (r: GenApiResult<i64>)
    ensures
        r == int_source_value(store.nodes(), values.values(), src, store.nodes().len()),
{
    match src {
        ImmOrPNode::Imm(i) => Ok(i),
        ImmOrPNode::PNode(n) => int_node_value_exec(n, store, values, store.len()),
    }
}

fn address_term_exec(
    kind: AddressKind,
    length: i64,
    store: &DefaultNodeStore,
    values: &DefaultValueStore,
) -> (r: GenApiResult<i128>)
    ensures
        r matches Ok(t) ==> address_term(store.nodes(), values.values(), kind, length, store.nodes().len())
            == Ok::<int, GenApiError>(t as int),
        r matches Err(e) ==> address_term(store.nodes(), values.values(), kind, length, store.nodes().len())
            == Err::<int, GenApiError>(e),
        r matches Ok(t) ==> -0x4000_0000_0000_0000_0000_0000_0000_0000 <= t
            <= 0x4000_0000_0000_0000_0000_0000_0000_0000,
{
    match kind {
        AddressKind::Address(a) => match int_source_value_exec(a, store, values) {
            Ok(v) => Ok(v as i128),
            Err(e) => Err(e),
        },
        AddressKind::IntSwissKnife(_) => Err(GenApiError::InvalidNode),
        AddressKind::PIndex(p) => match int_node_value_exec(p.p_index, store, values, store.len()) {
            Ok(i) => {
                let off = match p.offset {
                    Some(o) => match int_source_value_exec(o, store, values) {
                        Ok(off) => off,
                        Err(e) => {
                            return Err(e);
                        },
                    },
                    None => length,
                };
                let (a, b) = (i as i128, off as i128);
                assert(-0x8000_0000_0000_0000 * 0x8000_0000_0000_0000 <= a * b
                    <= 0x8000_0000_0000_0000 * 0x8000_0000_0000_0000) by (nonlinear_arith)
                    requires
                        -0x8000_0000_0000_0000 <= a <= 0x7fff_ffff_ffff_ffff,
                        -0x8000_0000_0000_0000 <= b <= 0x7fff_ffff_ffff_ffff,
                ;
                Ok(a * b)
            },
            Err(e) => Err(e),
        },
    }
}

proof fn lemma_register_address_err(
    nodes: Seq<Option<crate::node::NodeData>>,
    values: Seq<ValueData>,
    kinds: Seq<AddressKind>,
    i: int,
    length: i64,
    fuel: nat,
)
    requires
        0 <= i <= kinds.len(),
        register_address(nodes, values, kinds.subrange(0, i), length, fuel) is Err,
    ensures
        register_address(nodes, values, kinds, length, fuel) == register_address(
            nodes,
            values,
            kinds.subrange(0, i),
            length,
            fuel,
        ),
    decreases kinds.len() - i,
{
    if i < kinds.len() {
        assert(kinds.subrange(0, i + 1).drop_last() =~= kinds.subrange(0, i));
        lemma_register_address_err(nodes, values, kinds, i + 1, length, fuel);
    } else {
        assert(kinds.subrange(0, i) =~= kinds);
    }
}

fn register_address_exec(
    kinds: &Vec<AddressKind>,
    length: i64,
    store: &DefaultNodeStore,
    values: &DefaultValueStore,
) -> (r: GenApiResult<i64>)
    ensures
        r == register_address(store.nodes(), values.values(), kinds@, length, store.nodes().len()),
{
    let mut acc: i64 = 0;
    let mut i: usize = 0;
    assert(kinds@.subrange(0, 0).len() == 0);
    while i < kinds.len()
        invariant
            i <= kinds@.len(),
            register_address(
                store.nodes(),
                values.values(),
                kinds@.subrange(0, i as int),
                length,
                store.nodes().len(),
            ) == Ok::<i64, GenApiError>(acc),
        decreases kinds@.len() - i,
    {
        let ghost pre = kinds@.subrange(0, i + 1);
        assert(pre.drop_last() =~= kinds@.subrange(0, i as int));
        let step = match address_term_exec(kinds[i], length, store, values) {
            Ok(t) => {
                let sum = acc as i128 + t;
                if sum < i64::MIN as i128 || sum > i64::MAX as i128 {
                    Err(GenApiError::InvalidData)
                } else {
                    Ok(sum as i64)
                }
            },
            Err(e) => Err(e),
        };
        match step {
            Ok(a) => {
                acc = a;
            },
            Err(e) => {
                proof {
                    lemma_register_address_err(
                        store.nodes(),
                        values.values(),
                        kinds@,
                        i + 1,
                        length,
                        store.nodes().len(),
                    );
                }
                return Err(e);
            },
        }
        i = i + 1;
    }
    assert(kinds@.subrange(0, i as int) =~= kinds@);
    Ok(acc)
}

/// Address and length of a register; a length other than 1, 2, 4 or 8
/// bytes is `InvalidBuffer`.
pub open spec fn int_register_location(
    nodes: Seq<Option<crate::node::NodeData>>,
    values: Seq<ValueData>,
    rb: RegisterBase,
    fuel: nat,
) -> GenApiResult<(i64, i64)> {
    match int_source_value(nodes, values, rb.length, fuel) {
        Ok(len) => if !is_int_width(len as nat) || len < 0 {
            Err(GenApiError::InvalidBuffer)
        } else {
            match register_address(nodes, values, rb.address_kinds@, len, fuel) {
                Ok(a) => Ok((a, len)),
                Err(e) => Err(e),
            }
        },
        Err(e) => Err(e),
    }
}

/// An integer feature held in a device register.
#[derive(Debug, Clone)]
pub struct IntRegNode {
    pub attr_base: NodeAttributeBase,
    pub register_base: RegisterBase,
    pub sign: Sign,
    pub endianness: Endianness,
    pub unit: Option<String>,
    pub representation: IntegerRepresentation,
    pub p_selected: Vec<NodeId>,
}

impl IntRegNode {
    pub fn node_base(&self) -> (r: NodeBase<'_>)
        ensures
            *r.attr_base == self.attr_base,
            *r.elem_base == self.register_base.elem_base,
    {
        NodeBase { attr_base: &self.attr_base, elem_base: &self.register_base.elem_base }
    }

    pub fn streamable(&self) -> (r: bool)
        ensures
            r == self.register_base.streamable,
    {
        self.register_base.streamable
    }

    /// The register's address and length.
    pub fn location<C: CacheStore>(&self, store: &DefaultNodeStore, cx: &ValueCtxt<C>) -> (r:
        GenApiResult<(i64, i64)>)
        ensures
            r == int_register_location(
                store.nodes(),
                cx.values(),
                self.register_base,
                store.nodes().len(),
            ),
    {
        let len = int_source_value_exec(self.register_base.length, store, &cx.value_store)?;
        if !(len == 1 || len == 2 || len == 4 || len == 8) {
            return Err(GenApiError::InvalidBuffer);
        }
        let address = register_address_exec(
            &self.register_base.address_kinds,
            len,
            store,
            &cx.value_store,
        )?;
        Ok((address, len))
    }

    /// Reads the register through the device and decodes it. A write-only
    /// register is `NotReadable`.
    pub fn value<C: CacheStore, D: Device>(
        &self,
        device: &mut D,
        store: &DefaultNodeStore,
        cx: &mut ValueCtxt<C>,
    ) -> (r: GenApiResult<i64>)
        ensures
            final(cx).values() == old(cx).values(),
            forall|k: CacheKey| k.0 != self.attr_base.id ==> #[trigger] final(cx).cache_store.cached(k)
                == old(cx).cache_store.cached(k),
            self.register_base.access_mode == AccessMode::WO ==> r == Err::<i64, GenApiError>(
                GenApiError::NotReadable,
            ) && *final(cx) == *old(cx),
            self.register_base.access_mode != AccessMode::WO ==> match int_register_location(
                store.nodes(),
                old(cx).values(),
                self.register_base,
                store.nodes().len(),
            ) {
                Err(e) => r == Err::<i64, GenApiError>(e) && *final(cx) == *old(cx),
                Ok((a, l)) => {
                    &&& (self.register_base.cacheable == CachingMode::NoCache
                        || old(cx).cache_store.cached((self.attr_base.id, a, l)) is None ==> (r is Ok
                        || (r matches Err(e) && e is Io)))
                    &&& (self.register_base.cacheable != CachingMode::NoCache
                        && old(cx).cache_store.cached((self.attr_base.id, a, l)) is Some ==> r
                        == decoded(
                        old(cx).cache_store.cached((self.attr_base.id, a, l))->Some_0,
                        self.endianness,
                        self.sign,
                    ))
                    &&& (self.register_base.cacheable != CachingMode::NoCache
                        && old(cx).cache_store.retains() && r is Ok ==> final(cx).cache_store.cached(
                        (self.attr_base.id, a, l),
                    ) is Some && r == decoded(
                        final(cx).cache_store.cached((self.attr_base.id, a, l))->Some_0,
                        self.endianness,
                        self.sign,
                    ))
                },
            },
    {
        if self.register_base.access_mode == AccessMode::WO {
            return Err(GenApiError::NotReadable);
        }
        let (address, len) = self.location(store, cx)?;
        read_int_register(
            self.attr_base.id,
            address,
            len as usize,
            self.register_base.cacheable,
            self.endianness,
            self.sign,
            device,
            cx,
        )
    }

    /// Encodes `value` and writes it to the register through the device,
    /// after clearing the caches that this node invalidates. A read-only
    /// register is `NotWritable`.
    pub fn set_value<C: CacheStore, D: Device>(
        &self,
        value: i64,
        device: &mut D,
        store: &DefaultNodeStore,
        cx: &mut ValueCtxt<C>,
    ) -> (r: GenApiResult<()>)
        ensures
            final(cx).values() == old(cx).values(),
            self.register_base.access_mode == AccessMode::RO ==> r == Err::<(), GenApiError>(
                GenApiError::NotWritable,
            ) && *final(cx) == *old(cx),
            self.register_base.access_mode != AccessMode::RO ==> match int_register_location(
                store.nodes(),
                old(cx).values(),
                self.register_base,
                store.nodes().len(),
            ) {
                Err(e) => r == Err::<(), GenApiError>(e),
                Ok((a, l)) => (r is Ok || (r matches Err(e) && e is Io)) && (r is Ok
                    && self.register_base.cacheable == CachingMode::WriteThrough
                    && old(cx).cache_store.retains() ==> final(cx).cache_store.cached(
                    (self.attr_base.id, a, l),
                ) is Some && unsigned_value(
                    final(cx).cache_store.cached((self.attr_base.id, a, l))->Some_0,
                    self.endianness,
                ) == value as int % (byte_base(l as nat) as int)),
            },
            self.register_base.access_mode != AccessMode::RO ==> forall|k: CacheKey|
                old(cx).cache_store.invalidates(self.attr_base.id, k.0) && k.0 != self.attr_base.id
                    ==> #[trigger] final(cx).cache_store.cached(k) is None,
    {
        if self.register_base.access_mode == AccessMode::RO {
            return Err(GenApiError::NotWritable);
        }
        cx.invalidate_cache_by(self.attr_base.id);
        let ghost mid = cx.cache_store;
        let (address, len) = match self.location(store, cx) {
            Ok(loc) => loc,
            Err(e) => {
                return Err(e);
            },
        };
        let r = write_int_register(
            self.attr_base.id,
            address,
            len as usize,
            value,
            self.register_base.cacheable,
            self.endianness,
            self.sign,
            device,
            cx,
        );
        proof {
            assert forall|k: CacheKey|
                old(cx).cache_store.invalidates(self.attr_base.id, k.0) && k.0 != self.attr_base.id
                    implies #[trigger] cx.cache_store.cached(k) is None by {
                assert(mid.cached(k) is None);
            }
        }
        r
    }
}

/// The value of the integer node `nid` when register nodes read as `reg`
/// says; otherwise as `int_node_value`.
pub open spec fn int_node_value_via(
    nodes: Seq<Option<NodeData>>,
    values: Seq<ValueData>,
    nid: NodeId,
    fuel: nat,
    reg: spec_fn(NodeId) -> GenApiResult<i64>,
) -> GenApiResult<i64>
    decreases fuel, 0nat,
{
    if fuel == 0 {
        Err(GenApiError::InvalidNode)
    } else {
        match node_at(nodes, nid) {
            Some(NodeData::Integer(n)) => kind_value_via(
                nodes,
                values,
                n.value_kind,
                (fuel - 1) as nat,
                reg,
            ),
            Some(NodeData::IntReg(_)) => reg(nid),
            _ => Err(GenApiError::InvalidNode),
        }
    }
}

pub open spec fn source_value_via(
    nodes: Seq<Option<NodeData>>,
    values: Seq<ValueData>,
    src: ImmOrPNode<IntegerId>,
    fuel: nat,
    reg: spec_fn(NodeId) -> GenApiResult<i64>,
) -> GenApiResult<i64>
    decreases fuel, 1nat,
{
    match src {
        ImmOrPNode::Imm(id) => imm_value(values, id),
        ImmOrPNode::PNode(n) => int_node_value_via(nodes, values, n, fuel, reg),
    }
}

pub open spec fn kind_value_via(
    nodes: Seq<Option<NodeData>>,
    values: Seq<ValueData>,
    kind: ValueKind<IntegerId>,
    fuel: nat,
    reg: spec_fn(NodeId) -> GenApiResult<i64>,
) -> GenApiResult<i64>
    decreases fuel, 2nat,
{
    match kind {
        ValueKind::Value(id) => imm_value(values, id),
        ValueKind::PValue(p) => int_node_value_via(nodes, values, p.p_value, fuel, reg),
        ValueKind::PIndex(p) => match int_node_value_via(nodes, values, p.p_index, fuel, reg) {
            Ok(idx) => source_value_via(
                nodes,
                values,
                select_indexed(p.value_indexed@, p.value_default, idx),
                fuel,
                reg,
            ),
            Err(e) => Err(e),
        },
    }
}

/// The outcome recorded for register node `n` in `memo`, if any.
pub open spec fn memo_lookup(memo: Seq<(NodeId, GenApiResult<i64>)>, n: NodeId) -> Option<
    GenApiResult<i64>,
>
    decreases memo.len(),
{
    if memo.len() == 0 {
        None
    } else if memo[0].0 == n {
        Some(memo[0].1)
    } else {
        memo_lookup(memo.drop_first(), n)
    }
}

/// `reg` gives every register the outcome that `memo` recorded for it.
pub open spec fn agrees(reg: spec_fn(NodeId) -> GenApiResult<i64>, memo: Seq<(NodeId, GenApiResult<i64>)>) -> bool {
    forall|n: NodeId| #[trigger] memo_lookup(memo, n) is Some ==> reg(n) == memo_lookup(memo, n)->Some_0
}

/// `after` keeps every outcome that `before` recorded.
pub open spec fn extends(before: Seq<(NodeId, GenApiResult<i64>)>, after: Seq<(NodeId, GenApiResult<i64>)>) -> bool {
    forall|n: NodeId| #[trigger] memo_lookup(before, n) is Some ==> memo_lookup(after, n) == memo_lookup(before, n)
}

proof fn lemma_memo_push(memo: Seq<(NodeId, GenApiResult<i64>)>, x: (NodeId, GenApiResult<i64>), n: NodeId)
    ensures
        memo_lookup(memo.push(x), n) == if memo_lookup(memo, n) is Some {
            memo_lookup(memo, n)
        } else if x.0 == n {
            Some(x.1)
        } else {
            None
        },
    decreases memo.len(),
{
    if memo.len() > 0 {
        assert(memo.push(x)[0] == memo[0]);
        assert(memo.push(x).drop_first() =~= memo.drop_first().push(x));
        lemma_memo_push(memo.drop_first(), x, n);
    } else {
        assert(memo.push(x)[0] == x);
        assert(memo_lookup(memo.push(x).drop_first(), n) is None);
    }
}

/// Every stored node sits in the slot of its own id.
pub open spec fn ids_match(nodes: Seq<Option<NodeData>>) -> bool {
    forall|i: int|
        0 <= i < nodes.len() && #[trigger] nodes[i] is Some ==> node_attr_base(nodes[i]->Some_0).id.0
            == i
}

/// `x` is an outcome that reading the register node `n` can have, given the
/// cache `cache`: a write-only register is `NotReadable`, an address or
/// length that cannot be had gives its error, cached bytes are decoded, and
/// otherwise the device answers with a value or a transport error.
pub open spec fn register_outcome<C: CacheStore>(
    nodes: Seq<Option<NodeData>>,
    values: Seq<ValueData>,
    cache: C,
    n: NodeId,
    x: GenApiResult<i64>,
) -> bool {
    match node_at(nodes, n) {
        Some(NodeData::IntReg(rn)) => if rn.register_base.access_mode == AccessMode::WO {
            x == Err::<i64, GenApiError>(GenApiError::NotReadable)
        } else {
            match int_register_location(nodes, values, rn.register_base, nodes.len()) {
                Err(e) => x == Err::<i64, GenApiError>(e),
                Ok((a, l)) => {
                    &&& (rn.register_base.cacheable != CachingMode::NoCache && cache.cached(
                        (n, a, l),
                    ) is Some ==> x == decoded(
                        cache.cached((n, a, l))->Some_0,
                        rn.endianness,
                        rn.sign,
                    ))
                    &&& (rn.register_base.cacheable == CachingMode::NoCache || cache.cached(
                        (n, a, l),
                    ) is None ==> (x is Ok || (x matches Err(e) && e is Io)))
                },
            }
        },
        _ => false,
    }
}

/// Every outcome that `memo` recorded is one that its register can have.
pub open spec fn memo_valid<C: CacheStore>(
    memo: Seq<(NodeId, GenApiResult<i64>)>,
    nodes: Seq<Option<NodeData>>,
    values: Seq<ValueData>,
    cache: C,
) -> bool {
    forall|n: NodeId|
        #[trigger] memo_lookup(memo, n) is Some ==> register_outcome(
            nodes,
            values,
            cache,
            n,
            memo_lookup(memo, n)->Some_0,
        )
}

/// The cache entries of the nodes that `memo` has not read are as in `start`.
pub open spec fn untouched<C: CacheStore>(start: C, now: C, memo: Seq<(NodeId, GenApiResult<i64>)>) -> bool {
    forall|k: CacheKey| memo_lookup(memo, k.0) is None ==> #[trigger] now.cached(k) == start.cached(k)
}

fn memo_find(memo: &Vec<(NodeId, GenApiResult<i64>)>, n: NodeId) -> (r: Option<GenApiResult<i64>>)
    ensures
        r == memo_lookup(memo@, n),
{
    let mut i: usize = 0;
    assert(memo@.subrange(0, memo@.len() as int) =~= memo@);
    while i < memo.len()
        invariant
            i <= memo@.len(),
            memo_lookup(memo@, n) == memo_lookup(memo@.subrange(i as int, memo@.len() as int), n),
        decreases memo@.len() - i,
    {
        let ghost rest = memo@.subrange(i as int, memo@.len() as int);
        assert(rest[0] == memo@[i as int]);
        if memo[i].0.0 == n.0 {
            return Some(memo[i].1);
        }
        assert(rest.drop_first() =~= memo@.subrange(i + 1, memo@.len() as int));
        i = i + 1;
    }
    None
}

fn int_node_read<C: CacheStore, D: Device>(
    nid: NodeId,
    device: &mut D,
    store: &DefaultNodeStore,
    cx: &mut ValueCtxt<C>,
    fuel: usize,
    memo: &mut Vec<(NodeId, GenApiResult<i64>)>,
    start: Ghost<C>,
) -> (r: GenApiResult<i64>)
    requires
        ids_match(store.nodes()),
        memo_valid(old(memo)@, store.nodes(), old(cx).values(), start@),
        untouched(start@, old(cx).cache_store, old(memo)@),
    ensures
        final(cx).values() == old(cx).values(),
        extends(old(memo)@, final(memo)@),
        memo_valid(final(memo)@, store.nodes(), old(cx).values(), start@),
        untouched(start@, final(cx).cache_store, final(memo)@),
        forall|reg: spec_fn(NodeId) -> GenApiResult<i64>|
            #[trigger] agrees(reg, final(memo)@) ==> r == int_node_value_via(
                store.nodes(),
                old(cx).values(),
                nid,
                fuel as nat,
                reg,
            ),
    decreases fuel, 0nat,
{
    if fuel == 0 {
        return Err(GenApiError::InvalidNode);
    }
    match store.node_opt(nid) {
        Some(NodeData::Integer(n)) => kind_read(&n.value_kind, device, store, cx, fuel - 1, memo, start),
        Some(NodeData::IntReg(n)) => match memo_find(memo, nid) {
            Some(x) => x,
            None => {
                let ghost c0 = cx.cache_store;
                proof {
                    assert(node_attr_base(store.nodes()[nid.0 as int]->Some_0).id == nid);
                }
                let x = n.value(device, store, cx);
                let ghost before = memo@;
                memo.push((nid, x));
                proof {
                    lemma_memo_push(before, (nid, x), nid);
                    assert forall|k: CacheKey| k.0 == nid implies #[trigger] c0.cached(k) == start@.cached(k) by {
                        assert(memo_lookup(before, k.0) is None);
                    }
                    assert(register_outcome(store.nodes(), old(cx).values(), start@, nid, x));
                    assert forall|m: NodeId| #[trigger] memo_lookup(memo@, m) is Some implies register_outcome(
                        store.nodes(),
                        old(cx).values(),
                        start@,
                        m,
                        memo_lookup(memo@, m)->Some_0,
                    ) by {
                        lemma_memo_push(before, (nid, x), m);
                    }
                    assert forall|k: CacheKey| memo_lookup(memo@, k.0) is None implies #[trigger] cx.cache_store.cached(k)
                        == start@.cached(k) by {
                        lemma_memo_push(before, (nid, x), k.0);
                    }
                    assert forall|k: NodeId| #[trigger] memo_lookup(before, k) is Some implies memo_lookup(memo@, k)
                        == memo_lookup(before, k) by {
                        lemma_memo_push(before, (nid, x), k);
                    }
                    lemma_memo_push(before, (nid, x), nid);
                }
                x
            },
        },
        _ => Err(GenApiError::InvalidNode),
    }
}

fn source_read<C: CacheStore, D: Device>(
    src: ImmOrPNode<IntegerId>,
    device: &mut D,
    store: &DefaultNodeStore,
    cx: &mut ValueCtxt<C>,
    fuel: usize,
    memo: &mut Vec<(NodeId, GenApiResult<i64>)>,
    start: Ghost<C>,
) -> (r: GenApiResult<i64>)
    requires
        ids_match(store.nodes()),
        memo_valid(old(memo)@, store.nodes(), old(cx).values(), start@),
        untouched(start@, old(cx).cache_store, old(memo)@),
    ensures
        final(cx).values() == old(cx).values(),
        extends(old(memo)@, final(memo)@),
        memo_valid(final(memo)@, store.nodes(), old(cx).values(), start@),
        untouched(start@, final(cx).cache_store, final(memo)@),
        forall|reg: spec_fn(NodeId) -> GenApiResult<i64>|
            #[trigger] agrees(reg, final(memo)@) ==> r == source_value_via(
                store.nodes(),
                old(cx).values(),
                src,
                fuel as nat,
                reg,
            ),
    decreases fuel, 1nat,
{
    match src {
        ImmOrPNode::Imm(id) => imm_value_exec(&cx.value_store, id),
        ImmOrPNode::PNode(n) => int_node_read(n, device, store, cx, fuel, memo, start),
    }
}

fn kind_read<C: CacheStore, D: Device>(
    kind: &ValueKind<IntegerId>,
    device: &mut D,
    store: &DefaultNodeStore,
    cx: &mut ValueCtxt<C>,
    fuel: usize,
    memo: &mut Vec<(NodeId, GenApiResult<i64>)>,
    start: Ghost<C>,
) -> (r: GenApiResult<i64>)
    requires
        ids_match(store.nodes()),
        memo_valid(old(memo)@, store.nodes(), old(cx).values(), start@),
        untouched(start@, old(cx).cache_store, old(memo)@),
    ensures
        final(cx).values() == old(cx).values(),
        extends(old(memo)@, final(memo)@),
        memo_valid(final(memo)@, store.nodes(), old(cx).values(), start@),
        untouched(start@, final(cx).cache_store, final(memo)@),
        forall|reg: spec_fn(NodeId) -> GenApiResult<i64>|
            #[trigger] agrees(reg, final(memo)@) ==> r == kind_value_via(
                store.nodes(),
                old(cx).values(),
                *kind,
                fuel as nat,
                reg,
            ),
    decreases fuel, 2nat,
{
    match kind {
        ValueKind::Value(id) => imm_value_exec(&cx.value_store, *id),
        ValueKind::PValue(p) => int_node_read(p.p_value, device, store, cx, fuel, memo, start),
        ValueKind::PIndex(p) => {
            let ghost m0 = memo@;
            let idx = int_node_read(p.p_index, device, store, cx, fuel, memo, start);
            let ghost m1 = memo@;
            match idx {
                Ok(i) => {
                    let src = select_indexed_exec(&p.value_indexed, p.value_default, i);
                    let r = source_read(src, device, store, cx, fuel, memo, start);
                    proof {
                        assert forall|reg: spec_fn(NodeId) -> GenApiResult<i64>|
                            #[trigger] agrees(reg, memo@) implies agrees(reg, m1) by {
                            assert forall|n: NodeId| #[trigger] memo_lookup(m1, n) is Some implies reg(n)
                                == memo_lookup(m1, n)->Some_0 by {
                                assert(memo_lookup(memo@, n) == memo_lookup(m1, n));
                            }
                        }
                        assert forall|n: NodeId| #[trigger] memo_lookup(m0, n) is Some implies memo_lookup(memo@, n)
                            == memo_lookup(m0, n) by {
                            assert(memo_lookup(m1, n) == memo_lookup(m0, n));
                        }
                    }
                    r
                },
                Err(e) => Err(e),
            }
        },
    }
}

/// Where the graph alone gives a value, reading registers changes nothing:
/// the value is the same whatever the registers read.
pub proof fn lemma_int_node_value_via(
    nodes: Seq<Option<NodeData>>,
    values: Seq<ValueData>,
    nid: NodeId,
    fuel: nat,
    reg: spec_fn(NodeId) -> GenApiResult<i64>,
)
    requires
        int_node_value(nodes, values, nid, fuel) is Ok,
    ensures
        int_node_value_via(nodes, values, nid, fuel, reg) == int_node_value(nodes, values, nid, fuel),
    decreases fuel, 0nat,
{
    if fuel > 0 {
        if let Some(NodeData::Integer(n)) = node_at(nodes, nid) {
            lemma_kind_value_via(nodes, values, n.value_kind, (fuel - 1) as nat, reg);
        }
    }
}

pub proof fn lemma_source_value_via(
    nodes: Seq<Option<NodeData>>,
    values: Seq<ValueData>,
    src: ImmOrPNode<IntegerId>,
    fuel: nat,
    reg: spec_fn(NodeId) -> GenApiResult<i64>,
)
    requires
        source_value(nodes, values, src, fuel) is Ok,
    ensures
        source_value_via(nodes, values, src, fuel, reg) == source_value(nodes, values, src, fuel),
    decreases fuel, 1nat,
{
    if let ImmOrPNode::PNode(n) = src {
        lemma_int_node_value_via(nodes, values, n, fuel, reg);
    }
}

pub proof fn lemma_kind_value_via(
    nodes: Seq<Option<NodeData>>,
    values: Seq<ValueData>,
    kind: ValueKind<IntegerId>,
    fuel: nat,
    reg: spec_fn(NodeId) -> GenApiResult<i64>,
)
    requires
        kind_value(nodes, values, kind, fuel) is Ok,
    ensures
        kind_value_via(nodes, values, kind, fuel, reg) == kind_value(nodes, values, kind, fuel),
    decreases fuel, 2nat,
{
    match kind {
        ValueKind::Value(_) => {},
        ValueKind::PValue(p) => {
            lemma_int_node_value_via(nodes, values, p.p_value, fuel, reg);
        },
        ValueKind::PIndex(p) => {
            lemma_int_node_value_via(nodes, values, p.p_index, fuel, reg);
            let idx = int_node_value(nodes, values, p.p_index, fuel)->Ok_0;
            lemma_source_value_via(
                nodes,
                values,
                select_indexed(p.value_indexed@, p.value_default, idx),
                fuel,
                reg,
            );
        },
    }
}

/// `r` is what the value source `kind` gives when each register reads as
/// `memo` recorded it.
pub open spec fn explained_by(
    r: GenApiResult<i64>,
    memo: Seq<(NodeId, GenApiResult<i64>)>,
    nodes: Seq<Option<NodeData>>,
    values: Seq<ValueData>,
    kind: ValueKind<IntegerId>,
    fuel: nat,
) -> bool {
    forall|reg: spec_fn(NodeId) -> GenApiResult<i64>|
        #[trigger] agrees(reg, memo) ==> r == kind_value_via(nodes, values, kind, fuel, reg)
}

/// A register-read function that agrees with `memo`.
pub open spec fn reg_of(memo: Seq<(NodeId, GenApiResult<i64>)>) -> spec_fn(NodeId) -> GenApiResult<i64> {
    |n: NodeId|
        if memo_lookup(memo, n) is Some {
            memo_lookup(memo, n)->Some_0
        } else {
            Err(GenApiError::InvalidNode)
        }
}

/// Reads the value source `kind`, reading each register node that it
/// reaches at most once through the device and its register's caching mode.
/// The result is what the graph gives with the registers reading as they
/// did; where the graph alone gives a value, it is that value.
pub fn read_kind_value<C: CacheStore, D: Device>(
    kind: &ValueKind<IntegerId>,
    device: &mut D,
    store: &DefaultNodeStore,
    cx: &mut ValueCtxt<C>,
) -> (r: GenApiResult<i64>)
    requires
        ids_match(store.nodes()),
    ensures
        final(cx).values() == old(cx).values(),
        exists|memo: Seq<(NodeId, GenApiResult<i64>)>|
            #[trigger] explained_by(r, memo, store.nodes(), old(cx).values(), *kind, store.nodes().len())
                && memo_valid(memo, store.nodes(), old(cx).values(), old(cx).cache_store),
        kind_value(store.nodes(), old(cx).values(), *kind, store.nodes().len()) is Ok ==> r
            == kind_value(store.nodes(), old(cx).values(), *kind, store.nodes().len()),
{
    let mut memo: Vec<(NodeId, GenApiResult<i64>)> = Vec::new();
    let ghost start = cx.cache_store;
    let r = kind_read(kind, device, store, cx, store.len(), &mut memo, Ghost(start));
    proof {
        let m = memo@;
        assert(explained_by(r, m, store.nodes(), old(cx).values(), *kind, store.nodes().len()));
        let reg = reg_of(m);
        assert(agrees(reg, m));
        if kind_value(store.nodes(), old(cx).values(), *kind, store.nodes().len()) is Ok {
            lemma_kind_value_via(store.nodes(), old(cx).values(), *kind, store.nodes().len() as nat, reg);
        }
    }
    r
}

impl IntegerNode {
    /// The current value, read through the device where the value's source
    /// reaches register nodes.
    pub fn read_value<C: CacheStore, D: Device>(
        &self,
        device: &mut D,
        store: &DefaultNodeStore,
        cx: &mut ValueCtxt<C>,
    ) -> (r: GenApiResult<i64>)
        requires
            ids_match(store.nodes()),
        ensures
            final(cx).values() == old(cx).values(),
            exists|memo: Seq<(NodeId, GenApiResult<i64>)>|
                #[trigger] explained_by(
                    r,
                    memo,
                    store.nodes(),
                    old(cx).values(),
                    self.value_kind,
                    store.nodes().len(),
                ) && memo_valid(memo, store.nodes(), old(cx).values(), old(cx).cache_store),
            kind_value(store.nodes(), old(cx).values(), self.value_kind, store.nodes().len()) is Ok
                ==> r == kind_value(store.nodes(), old(cx).values(), self.value_kind, store.nodes().len()),
    {
        read_kind_value(&self.value_kind, device, store, cx)
    }
}

/// `r` is what node `nid` gives when each register reads as `memo`
/// recorded it.
pub open spec fn node_explained_by(
    r: GenApiResult<i64>,
    memo: Seq<(NodeId, GenApiResult<i64>)>,
    nodes: Seq<Option<NodeData>>,
    values: Seq<ValueData>,
    nid: NodeId,
    fuel: nat,
) -> bool {
    forall|reg: spec_fn(NodeId) -> GenApiResult<i64>|
        #[trigger] agrees(reg, memo) ==> r == int_node_value_via(nodes, values, nid, fuel, reg)
}

/// The value of the integer or register node `nid`, read through the device
/// where it reaches register nodes; where the graph alone gives a value, it
/// is that value.
pub fn read_int_node<C: CacheStore, D: Device>(
    nid: NodeId,
    device: &mut D,
    store: &DefaultNodeStore,
    cx: &mut ValueCtxt<C>,
) -> (r: GenApiResult<i64>)
    requires
        ids_match(store.nodes()),
    ensures
        final(cx).values() == old(cx).values(),
        exists|memo: Seq<(NodeId, GenApiResult<i64>)>|
            #[trigger] node_explained_by(r, memo, store.nodes(), old(cx).values(), nid, store.nodes().len())
                && memo_valid(memo, store.nodes(), old(cx).values(), old(cx).cache_store),
        int_node_value(store.nodes(), old(cx).values(), nid, store.nodes().len()) is Ok ==> r
            == int_node_value(store.nodes(), old(cx).values(), nid, store.nodes().len()),
{
    let mut memo: Vec<(NodeId, GenApiResult<i64>)> = Vec::new();
    let ghost start = cx.cache_store;
    let r = int_node_read(nid, device, store, cx, store.len(), &mut memo, Ghost(start));
    proof {
        let m = memo@;
        assert(node_explained_by(r, m, store.nodes(), old(cx).values(), nid, store.nodes().len()));
        let reg = reg_of(m);
        assert(agrees(reg, m));
        if int_node_value(store.nodes(), old(cx).values(), nid, store.nodes().len()) is Ok {
            lemma_int_node_value_via(store.nodes(), old(cx).values(), nid, store.nodes().len() as nat, reg);
        }
    }
    r
}

/// `r` is what the value source `src` gives when each register reads as
/// `memo` recorded it.
pub open spec fn source_explained_by(
    r: GenApiResult<i64>,
    memo: Seq<(NodeId, GenApiResult<i64>)>,
    nodes: Seq<Option<NodeData>>,
    values: Seq<ValueData>,
    src: ImmOrPNode<IntegerId>,
    fuel: nat,
) -> bool {
    forall|reg: spec_fn(NodeId) -> GenApiResult<i64>|
        #[trigger] agrees(reg, memo) ==> r == source_value_via(nodes, values, src, fuel, reg)
}

impl EnumerationNode {
    /// The current value, read through the device where the value's source
    /// reaches register nodes; where the graph alone gives a value, it is
    /// that value.
    pub fn read_current_value<C: CacheStore, D: Device>(
        &self,
        device: &mut D,
        store: &DefaultNodeStore,
        cx: &mut ValueCtxt<C>,
    ) -> (r: GenApiResult<i64>)
        requires
            ids_match(store.nodes()),
        ensures
            final(cx).values() == old(cx).values(),
            exists|memo: Seq<(NodeId, GenApiResult<i64>)>|
                #[trigger] source_explained_by(
                    r,
                    memo,
                    store.nodes(),
                    old(cx).values(),
                    self.value,
                    store.nodes().len(),
                ) && memo_valid(memo, store.nodes(), old(cx).values(), old(cx).cache_store),
            source_value(store.nodes(), old(cx).values(), self.value, store.nodes().len()) is Ok ==> r
                == source_value(store.nodes(), old(cx).values(), self.value, store.nodes().len()),
    {
        let mut memo: Vec<(NodeId, GenApiResult<i64>)> = Vec::new();
        let ghost start = cx.cache_store;
        let r = source_read(self.value, device, store, cx, store.len(), &mut memo, Ghost(start));
        proof {
            let m = memo@;
            assert(source_explained_by(r, m, store.nodes(), old(cx).values(), self.value, store.nodes().len()));
            let reg = reg_of(m);
            assert(agrees(reg, m));
            if source_value(store.nodes(), old(cx).values(), self.value, store.nodes().len()) is Ok {
                lemma_source_value_via(store.nodes(), old(cx).values(), self.value, store.nodes().len() as nat, reg);
            }
        }
        r
    }
}

} // verus!
