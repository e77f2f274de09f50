//! The elements that every register node shares.
use vstd::prelude::*;

use crate::elem_type::{AccessMode, CachingMode, ImmOrPNode};
use crate::node::NodeElementBase;
use crate::store::NodeId;

verus! {

/// An offset scaled by the value of an index node.
#[derive(Debug, Clone, Copy, PartialEq, Eq, Structural)]
pub struct RegPIndex {
    pub offset: Option<ImmOrPNode<i64>>,
    pub p_index: NodeId,
}

/// One term of a register's address; the address is their sum.
#[derive(Debug, Clone, Copy, PartialEq, Eq, Structural)]
pub enum AddressKind {
    Address(ImmOrPNode<i64>),
    IntSwissKnife(NodeId),
    PIndex(RegPIndex),
}

#[derive(Debug, Clone)]
pub struct RegisterBase {
    pub elem_base: NodeElementBase,
    pub streamable: bool,
    pub address_kinds: Vec<AddressKind>,
    pub length: ImmOrPNode<i64>,
    pub access_mode: AccessMode,
    pub p_port: String,
    pub cacheable: CachingMode,
    pub polling_time: Option<i64>,
    pub p_invalidators: Vec<String>,
}

impl RegisterBase {
    pub fn streamable(&self) -> (r: bool)
        ensures
            r == self.streamable,
    {
        self.streamable
    }

    pub fn address_kinds(&self) -> (r: &[AddressKind])
        ensures
            r@ == self.address_kinds@,
    {
        self.address_kinds.as_slice()
    }

    pub fn length(&self) -> (r: &ImmOrPNode<i64>)
        ensures
            *r == self.length,
    {
        &self.length
    }

    pub fn access_mode(&self) -> (r: AccessMode)
        ensures
            r == self.access_mode,
    {
        self.access_mode
    }

    pub fn p_port(&self) -> (r: &str)
        ensures
            r@ == self.p_port@,
    {
        self.p_port.as_str()
    }

    pub fn cacheable(&self) -> (r: CachingMode)
        ensures
            r == self.cacheable,
    {
        self.cacheable
    }

    pub fn polling_time(&self) -> (r: Option<i64>)
        ensures
            r == self.polling_time,
    {
        self.polling_time
    }

    pub fn p_invalidators(&self) -> (r: &[String])
        ensures
            r@ == self.p_invalidators@,
    {
        self.p_invalidators.as_slice()
    }

    pub fn elem_base(&self) -> (r: &NodeElementBase)
        ensures
            *r == self.elem_base,
    {
        &self.elem_base
    }
}

} // verus!
