//! Identifiers, the value store and the register cache.
use vstd::prelude::*;

verus! {

/// Dense handle of a node, interned from the node's unique name.
#[derive(Debug, Clone, Copy, PartialEq, Eq, Hash, Structural)]
pub struct NodeId(pub u32);

impl NodeId {
    /// The handle for the `index`-th interned name; every index up to
    /// `u32::MAX - 1` has one.
    pub fn try_from_usize(index: usize) -> (r: Option<NodeId>)
        ensures
            index < u32::MAX ==> r == Some(NodeId(index as u32)),
            index >= u32::MAX ==> r is None,
    {
        if index >= u32::MAX as usize {
            None
        } else {
            Some(NodeId(index as u32))
        }
    }

    pub fn to_usize(self) -> (r: usize)
        ensures
            r == self.0,
    {
        self.0 as usize
    }
}

/// Handle of a value in a `DefaultValueStore`.
#[derive(Debug, Clone, Copy, PartialEq, Eq, Hash, Structural)]
pub struct ValueId(pub u32);

impl ValueId {
    pub fn from_u32(i: u32) -> (r: ValueId)
        ensures
            r.0 == i,
    {
        ValueId(i)
    }
}

/// Handle of an integer value.
#[derive(Debug, Clone, Copy, PartialEq, Eq, Structural)]
pub struct IntegerId(pub u32);

/// Handle of a float value.
#[derive(Debug, Clone, Copy, PartialEq, Eq, Structural)]
pub struct FloatId(pub u32);

/// Handle of a string value.
#[derive(Debug, Clone, Copy, PartialEq, Eq, Structural)]
pub struct StringId(pub u32);

impl From<IntegerId> for ValueId {
    fn from(v: IntegerId) -> (r: ValueId) {
        ValueId(v.0)
    }
}

impl vstd::std_specs::convert::FromSpecImpl<IntegerId> for ValueId {
    open spec fn obeys_from_spec() -> bool {
        true
    }

    open spec fn from_spec(v: IntegerId) -> ValueId {
        ValueId(v.0)
    }
}

impl From<ValueId> for IntegerId {
    fn from(v: ValueId) -> (r: IntegerId) {
        IntegerId(v.0)
    }
}

impl vstd::std_specs::convert::FromSpecImpl<ValueId> for IntegerId {
    open spec fn obeys_from_spec() -> bool {
        true
    }

    open spec fn from_spec(v: ValueId) -> IntegerId {
        IntegerId(v.0)
    }
}

impl From<FloatId> for ValueId {
    fn from(v: FloatId) -> (r: ValueId) {
        ValueId(v.0)
    }
}

impl vstd::std_specs::convert::FromSpecImpl<FloatId> for ValueId {
    open spec fn obeys_from_spec() -> bool {
        true
    }

    open spec fn from_spec(v: FloatId) -> ValueId {
        ValueId(v.0)
    }
}

impl From<ValueId> for FloatId {
    fn from(v: ValueId) -> (r: FloatId) {
        FloatId(v.0)
    }
}

impl vstd::std_specs::convert::FromSpecImpl<ValueId> for FloatId {
    open spec fn obeys_from_spec() -> bool {
        true
    }

    open spec fn from_spec(v: ValueId) -> FloatId {
        FloatId(v.0)
    }
}

impl From<StringId> for ValueId {
    fn from(v: StringId) -> (r: ValueId) {
        ValueId(v.0)
    }
}

impl vstd::std_specs::convert::FromSpecImpl<StringId> for ValueId {
    open spec fn obeys_from_spec() -> bool {
        true
    }

    open spec fn from_spec(v: StringId) -> ValueId {
        ValueId(v.0)
    }
}

impl From<ValueId> for StringId {
    fn from(v: ValueId) -> (r: StringId) {
        StringId(v.0)
    }
}

impl vstd::std_specs::convert::FromSpecImpl<ValueId> for StringId {
    open spec fn obeys_from_spec() -> bool {
        true
    }

    open spec fn from_spec(v: ValueId) -> StringId {
        StringId(v.0)
    }
}

/// A primitive value. A float is held as its IEEE-754 binary64 bits.
#[derive(Debug, Clone, PartialEq)]
pub enum ValueData {
    Integer(i64),
    Float(u64),
    Str(String),
    Boolean(bool),
}

/// Append-only arena of values, addressed by the position of each value.
#[derive(Debug)]
pub struct DefaultValueStore(Vec<ValueData>);

impl DefaultValueStore {
    pub closed spec fn values(&self) -> Seq<ValueData> {
        self.0@
    }

    pub fn new() -> (r: DefaultValueStore)
        ensures
            r.values() == Seq::<ValueData>::empty(),
    {
        DefaultValueStore(Vec::new())
    }

    /// Appends `data`; its handle is the number of values stored before.
    pub fn store(&mut self, data: ValueData) -> (r: ValueId)
        requires
            old(self).values().len() <= u32::MAX,
        ensures
            r.0 == old(self).values().len(),
            final(self).values() == old(self).values().push(data),
    {
        let id = ValueId(self.0.len() as u32);
        self.0.push(data);
        id
    }

    pub fn value_opt(&self, id: ValueId) -> (r: Option<&ValueData>)
        ensures
            id.0 < self.values().len() ==> r == Some(&self.values()[id.0 as int]),
            id.0 >= self.values().len() ==> r is None,
    {
        if (id.0 as usize) < self.0.len() {
            Some(&self.0[id.0 as usize])
        } else {
            None
        }
    }

    /// Replaces the value of `id` and hands back the one it held; an unknown
    /// handle changes nothing.
    pub fn update(&mut self, id: ValueId, value: ValueData) -> (r: Option<ValueData>)
        ensures
            id.0 < old(self).values().len() ==> r == Some(old(self).values()[id.0 as int])
                && final(self).values() == old(self).values().update(id.0 as int, value),
            id.0 >= old(self).values().len() ==> r is None && final(self).values() == old(
                self,
            ).values(),
    {
        let i = id.0 as usize;
        if i < self.0.len() {
            let mut v = value;
            self.0.set_and_swap(i, &mut v);
            Some(v)
        } else {
            None
        }
    }

    pub fn integer_value(&self, id: IntegerId) -> (r: Option<i64>)
        ensures
            r == integer_at(self.values(), id),
    {
        match self.value_opt(ValueId(id.0)) {
            Some(ValueData::Integer(i)) => Some(*i),
            _ => None,
        }
    }

    /// The bits of the float that `id` holds.
    pub fn float_value(&self, id: FloatId) -> (r: Option<u64>)
        ensures
            id.0 < self.values().len() && self.values()[id.0 as int] is Float ==> r == Some(
                self.values()[id.0 as int]->Float_0,
            ),
            !(id.0 < self.values().len() && self.values()[id.0 as int] is Float) ==> r is None,
    {
        match self.value_opt(ValueId(id.0)) {
            Some(ValueData::Float(f)) => Some(*f),
            _ => None,
        }
    }

    pub fn str_value(&self, id: StringId) -> (r: Option<&String>)
        ensures
            id.0 < self.values().len() && self.values()[id.0 as int] is Str ==> (r matches Some(
                s,
            ) && s@ == self.values()[id.0 as int]->Str_0@),
            !(id.0 < self.values().len() && self.values()[id.0 as int] is Str) ==> r is None,
    {
        match self.value_opt(ValueId(id.0)) {
            Some(ValueData::Str(s)) => Some(s),
            _ => None,
        }
    }
}

/// The integer that `id` holds in `values`, if it names an integer.
pub open spec fn integer_at(values: Seq<ValueData>, id: IntegerId) -> Option<i64> {
    if id.0 < values.len() && values[id.0 as int] is Integer {
        Some(values[id.0 as int]->Integer_0)
    } else {
        None
    }
}

} // verus!
