//! The variable environment of a formula: the values that the formula's
//! variables and constants stand for, read from the node graph.
use vstd::prelude::*;

use crate::cache::CacheStore;
use crate::elem_type::NamedValue;
use crate::enumeration::{current_entry_of, entry_of, entry_with_symbol, select_by_value};
use crate::error::{GenApiError, GenApiResult};
use crate::integer::inc_value;
use crate::node::{
    is_nid_readable, kind_value, node_at, node_readable, only_clears, set_kind, source_value,
    write_matches, DefaultNodeStore, NodeData, ValueCtxt,
};
use crate::store::{NodeId, ValueData};
use crate::variable::{variable_enum_entry, variable_kind_of, VariableKind};

verus! {

/// A value that a formula reads. A float is held as its IEEE-754 binary64
/// bits; `IntegerAsFloat` is an integer that the formula reads as a float.
#[derive(Debug, Clone, Copy, PartialEq, Eq, Structural)]
pub enum FormulaValue {
    Integer(i64),
    Float(u64),
    IntegerAsFloat(i64),
}

/// The numeric value of an enumeration entry: its own, else its value.
pub open spec fn entry_numeric(e: crate::node::EnumEntryNode) -> FormulaValue {
    match e.numeric_value {
        Some(bits) => FormulaValue::Float(bits),
        None => FormulaValue::IntegerAsFloat(e.value),
    }
}

/// The value of node `nid` in a formula: an integer node's value, or the
/// numeric value of an enumeration's current entry.
pub open spec fn nid_value(
    nodes: Seq<Option<NodeData>>,
    values: Seq<ValueData>,
    nid: NodeId,
    fuel: nat,
) -> GenApiResult<FormulaValue> {
    match node_at(nodes, nid) {
        Some(NodeData::Integer(n)) => match kind_value(nodes, values, n.value_kind, fuel) {
            Ok(v) => Ok(FormulaValue::Integer(v)),
            Err(e) => Err(e),
        },
        Some(NodeData::Enumeration(n)) => match current_entry_of(nodes, values, *n, fuel) {
            Ok(en) => match entry_of(nodes, en) {
                Some(ent) => Ok(entry_numeric(ent)),
                None => Err(GenApiError::InvalidNode),
            },
            Err(e) => Err(e),
        },
        _ => Err(GenApiError::InvalidNode),
    }
}

/// The value of the entry named `entry` of the enumeration `nid`.
pub open spec fn enum_variable_value(
    nodes: Seq<Option<NodeData>>,
    nid: NodeId,
    entry: Seq<char>,
) -> GenApiResult<FormulaValue> {
    match node_at(nodes, nid) {
        Some(NodeData::Enumeration(n)) => match entry_with_symbol(nodes, n.entries@, entry) {
            Some(en) => match entry_of(nodes, en) {
                Some(ent) => Ok(FormulaValue::Integer(ent.value)),
                None => Err(GenApiError::InvalidNode),
            },
            None => Err(GenApiError::InvalidNode),
        },
        _ => Err(GenApiError::InvalidNode),
    }
}

/// What a variable of the given kind on node `nid` reads.
pub open spec fn variable_value(
    kind: VariableKind,
    nodes: Seq<Option<NodeData>>,
    values: Seq<ValueData>,
    nid: NodeId,
    fuel: nat,
) -> GenApiResult<FormulaValue> {
    match kind {
        VariableKind::Value => nid_value(nodes, values, nid, fuel),
        VariableKind::Min => match node_at(nodes, nid) {
            Some(NodeData::Integer(n)) => match source_value(nodes, values, n.min, fuel) {
                Ok(v) => Ok(FormulaValue::Integer(v)),
                Err(e) => Err(e),
            },
            _ => Err(GenApiError::InvalidNode),
        },
        VariableKind::Max => match node_at(nodes, nid) {
            Some(NodeData::Integer(n)) => match source_value(nodes, values, n.max, fuel) {
                Ok(v) => Ok(FormulaValue::Integer(v)),
                Err(e) => Err(e),
            },
            _ => Err(GenApiError::InvalidNode),
        },
        VariableKind::Inc => match node_at(nodes, nid) {
            Some(NodeData::Integer(n)) => match inc_value(nodes, values, n.inc, fuel) {
                Ok(Some(v)) => Ok(FormulaValue::Integer(v)),
                Ok(None) => Err(GenApiError::InvalidNode),
                Err(e) => Err(e),
            },
            _ => Err(GenApiError::InvalidNode),
        },
        VariableKind::Enum(name) => enum_variable_value(nodes, nid, name@),
    }
}

/// What the variable written `name` on node `nid` reads; a name of another
/// shape is `InvalidNode`.
pub open spec fn named_variable_value(
    name: Seq<char>,
    nodes: Seq<Option<NodeData>>,
    values: Seq<ValueData>,
    nid: NodeId,
    fuel: nat,
) -> GenApiResult<FormulaValue> {
    if variable_kind_of(name) is Some {
        variable_value(variable_kind_of(name)->Some_0, nodes, values, nid, fuel)
    } else if variable_enum_entry(name) is Some {
        enum_variable_value(nodes, nid, variable_enum_entry(name)->Some_0)
    } else {
        Err(GenApiError::InvalidNode)
    }
}

/// The environment entries of `vars`, in order; the first variable that
/// cannot be read decides the error.
pub open spec fn variables_env(
    nodes: Seq<Option<NodeData>>,
    values: Seq<ValueData>,
    vars: Seq<NamedValue<NodeId>>,
    fuel: nat,
) -> GenApiResult<Seq<(Seq<char>, FormulaValue)>>
    decreases vars.len(),
{
    if vars.len() == 0 {
        Ok(seq![])
    } else {
        match variables_env(nodes, values, vars.drop_last(), fuel) {
            Ok(env) => match named_variable_value(
                vars.last().name@,
                nodes,
                values,
                vars.last().value,
                fuel,
            ) {
                Ok(v) => Ok(env.push((vars.last().name@, v))),
                Err(e) => Err(e),
            },
            Err(e) => Err(e),
        }
    }
}

/// Every variable's node can be read; the first that fails decides.
pub open spec fn variables_readable(
    nodes: Seq<Option<NodeData>>,
    values: Seq<ValueData>,
    vars: Seq<NamedValue<NodeId>>,
    fuel: nat,
) -> GenApiResult<bool>
    decreases vars.len(),
{
    if vars.len() == 0 {
        Ok(true)
    } else {
        match variables_readable(nodes, values, vars.drop_last(), fuel) {
            Ok(b) => match node_readable(nodes, values, vars.last().value, fuel) {
                Ok(c) => Ok(b && c),
                Err(e) => Err(e),
            },
            Err(e) => Err(e),
        }
    }
}

pub open spec fn env_view(env: Seq<(String, FormulaValue)>) -> Seq<(Seq<char>, FormulaValue)> {
    env.map_values(|p: (String, FormulaValue)| (p.0@, p.1))
}

pub open spec fn named_view<T>(vals: Seq<NamedValue<T>>) -> Seq<(Seq<char>, T)> {
    vals.map_values(|p: NamedValue<T>| (p.name@, p.value))
}

/// The value of node `nid` in a formula.
pub fn expr_from_nid<C: CacheStore>(nid: NodeId, store: &DefaultNodeStore, cx: &ValueCtxt<C>) -> (r:
    GenApiResult<FormulaValue>)
    ensures
        r == nid_value(store.nodes(), cx.values(), nid, store.nodes().len()),
{
    match store.node_opt(nid) {
        Some(NodeData::Integer(n)) => match n.value(store, cx) {
            Ok(v) => Ok(FormulaValue::Integer(v)),
            Err(e) => Err(e),
        },
        Some(NodeData::Enumeration(n)) => {
            let en = n.current_entry(store, cx)?;
            match en.as_enum_entry(store) {
                Some(ent) => Ok(
                    match ent.numeric_value {
                        Some(bits) => FormulaValue::Float(bits),
                        None => FormulaValue::IntegerAsFloat(ent.value),
                    },
                ),
                None => Err(GenApiError::InvalidNode),
            }
        },
        _ => Err(GenApiError::InvalidNode),
    }
}

fn enum_variable_value_exec(nid: NodeId, entry: &str, store: &DefaultNodeStore) -> (r: GenApiResult<
    FormulaValue,
>)
    ensures
        r == enum_variable_value(store.nodes(), nid, entry@),
{
    match store.node_opt(nid) {
        Some(NodeData::Enumeration(n)) => match n.entry_by_symbolic(entry, store) {
            Some(en) => match en.as_enum_entry(store) {
                Some(ent) => Ok(FormulaValue::Integer(ent.value)),
                None => Err(GenApiError::InvalidNode),
            },
            None => Err(GenApiError::InvalidNode),
        },
        _ => Err(GenApiError::InvalidNode),
    }
}

impl VariableKind {
    /// What this kind of variable on node `nid` reads.
    pub fn get_value<C: CacheStore>(&self, nid: NodeId, store: &DefaultNodeStore, cx: &ValueCtxt<C>) -> (r:
        GenApiResult<FormulaValue>)
        ensures
            r == variable_value(*self, store.nodes(), cx.values(), nid, store.nodes().len()),
    {
        match self {
            VariableKind::Value => expr_from_nid(nid, store, cx),
            VariableKind::Min => match nid.as_iinteger_kind(store) {
                Some(n) => match n.min(store, cx) {
                    Ok(v) => Ok(FormulaValue::Integer(v)),
                    Err(e) => Err(e),
                },
                None => Err(GenApiError::InvalidNode),
            },
            VariableKind::Max => match nid.as_iinteger_kind(store) {
                Some(n) => match n.max(store, cx) {
                    Ok(v) => Ok(FormulaValue::Integer(v)),
                    Err(e) => Err(e),
                },
                None => Err(GenApiError::InvalidNode),
            },
            VariableKind::Inc => match nid.as_iinteger_kind(store) {
                Some(n) => match n.inc(store, cx) {
                    Ok(Some(v)) => Ok(FormulaValue::Integer(v)),
                    Ok(None) => Err(GenApiError::InvalidNode),
                    Err(e) => Err(e),
                },
                None => Err(GenApiError::InvalidNode),
            },
            VariableKind::Enum(name) => enum_variable_value_exec(nid, name.as_str(), store),
        }
    }
}

/// Gathers the environment of one formula: its variables, read from the
/// graph, and its constants.
pub struct FormulaEnvCollector {
    p_variables: Vec<NamedValue<NodeId>>,
    constants: Vec<NamedValue<FormulaValue>>,
    var_env: Vec<(String, FormulaValue)>,
}

impl FormulaEnvCollector {
    pub closed spec fn variables(&self) -> Seq<NamedValue<NodeId>> {
        self.p_variables@
    }

    pub closed spec fn constant_values(&self) -> Seq<NamedValue<FormulaValue>> {
        self.constants@
    }

    /// The entries gathered so far, in order; a later entry of a name
    /// shadows an earlier one.
    pub closed spec fn env(&self) -> Seq<(Seq<char>, FormulaValue)> {
        env_view(self.var_env@)
    }

    pub fn new(p_variables: Vec<NamedValue<NodeId>>, constants: Vec<NamedValue<FormulaValue>>) -> (r:
        FormulaEnvCollector)
        ensures
            r.variables() == p_variables@,
            r.constant_values() == constants@,
            r.env() == Seq::<(Seq<char>, FormulaValue)>::empty(),
    {
        let r = FormulaEnvCollector { p_variables, constants, var_env: Vec::new() };
        assert(r.env() =~= Seq::<(Seq<char>, FormulaValue)>::empty());
        r
    }

    pub fn insert_imm(&mut self, name: String, imm: FormulaValue)
        ensures
            final(self).variables() == old(self).variables(),
            final(self).constant_values() == old(self).constant_values(),
            final(self).env() == old(self).env().push((name@, imm)),
    {
        let ghost n = name@;
        self.var_env.push((name, imm));
        assert(self.env() =~= old(self).env().push((n, imm)));
    }

    /// Adds the value of node `nid` under `name`.
    pub fn insert<C: CacheStore>(
        &mut self,
        name: String,
        nid: NodeId,
        store: &DefaultNodeStore,
        cx: &ValueCtxt<C>,
    ) -> (r: GenApiResult<()>)
        ensures
            final(self).variables() == old(self).variables(),
            final(self).constant_values() == old(self).constant_values(),
            nid_value(store.nodes(), cx.values(), nid, store.nodes().len()) matches Ok(v) ==> r is Ok
                && final(self).env() == old(self).env().push((name@, v)),
            nid_value(store.nodes(), cx.values(), nid, store.nodes().len()) matches Err(e) ==> r
                == Err::<(), GenApiError>(e) && final(self).env() == old(self).env(),
    {
        let value = expr_from_nid(nid, store, cx)?;
        self.insert_imm(name, value);
        Ok(())
    }

    /// Whether the node of every variable can be read.
    pub fn is_readable<C: CacheStore>(&self, store: &DefaultNodeStore, cx: &ValueCtxt<C>) -> (r:
        GenApiResult<bool>)
        ensures
            r == variables_readable(store.nodes(), cx.values(), self.variables(), store.nodes().len()),
    {
        let mut res = true;
        let mut i: usize = 0;
        assert(self.p_variables@.subrange(0, 0).len() == 0);
        while i < self.p_variables.len()
            invariant
                i <= self.p_variables@.len(),
                variables_readable(
                    store.nodes(),
                    cx.values(),
                    self.p_variables@.subrange(0, i as int),
                    store.nodes().len(),
                ) == Ok::<bool, GenApiError>(res),
            decreases self.p_variables@.len() - i,
        {
            let ghost pre = self.p_variables@.subrange(0, i + 1);
            assert(pre.drop_last() =~= self.p_variables@.subrange(0, i as int));
            match is_nid_readable(self.p_variables[i].value, store, cx) {
                Ok(b) => {
                    res = res && b;
                },
                Err(e) => {
                    proof {
                        lemma_readable_err(
                            store.nodes(),
                            cx.values(),
                            self.p_variables@,
                            i + 1,
                            store.nodes().len(),
                        );
                    }
                    return Err(e);
                },
            }
            i = i + 1;
        }
        assert(self.p_variables@.subrange(0, i as int) =~= self.p_variables@);
        Ok(res)
    }

    fn collect_variables<C: CacheStore>(&mut self, store: &DefaultNodeStore, cx: &ValueCtxt<C>) -> (r:
        GenApiResult<()>)
        ensures
            final(self).variables() == old(self).variables(),
            final(self).constant_values() == old(self).constant_values(),
            variables_env(store.nodes(), cx.values(), old(self).variables(), store.nodes().len()) matches Ok(
                env,
            ) ==> r is Ok && final(self).env() == old(self).env() + env,
            variables_env(store.nodes(), cx.values(), old(self).variables(), store.nodes().len()) matches Err(
                e,
            ) ==> r == Err::<(), GenApiError>(e),
    {
        let mut i: usize = 0;
        assert(old(self).env() + seq![] =~= old(self).env());
        while i < self.p_variables.len()
            invariant
                self.p_variables@ == old(self).p_variables@,
                self.constants@ == old(self).constants@,
                i <= self.p_variables@.len(),
                variables_env(
                    store.nodes(),
                    cx.values(),
                    self.p_variables@.subrange(0, i as int),
                    store.nodes().len(),
                ) matches Ok(env) && self.env() == old(self).env() + env,
            decreases self.p_variables@.len() - i,
        {
            let ghost pre = self.p_variables@.subrange(0, i + 1);
            assert(pre.drop_last() =~= self.p_variables@.subrange(0, i as int));
            let ghost before = self.env();
            let name = self.p_variables[i].name.clone();
            let nid = self.p_variables[i].value;
            let value = match VariableKind::from_str(name.as_str()) {
                Ok(kind) => kind.get_value(nid, store, cx),
                Err(e) => Err(e),
            };
            match value {
                Ok(v) => {
                    self.insert_imm(name, v);
                    proof {
                        let env0 = variables_env(
                            store.nodes(),
                            cx.values(),
                            self.p_variables@.subrange(0, i as int),
                            store.nodes().len(),
                        )->Ok_0;
                        assert(old(self).env() + env0.push((pre.last().name@, v)) =~= before.push(
                            (pre.last().name@, v),
                        ));
                    }
                },
                Err(e) => {
                    proof {
                        lemma_env_err(
                            store.nodes(),
                            cx.values(),
                            self.p_variables@,
                            i + 1,
                            store.nodes().len(),
                        );
                    }
                    return Err(e);
                },
            }
            i = i + 1;
        }
        assert(self.p_variables@.subrange(0, i as int) =~= self.p_variables@);
        Ok(())
    }

    /// The whole environment: what was inserted, then the variables in
    /// order, then the constants in order. The first variable that cannot be
    /// read decides the error.
    pub fn collect<C: CacheStore>(self, store: &DefaultNodeStore, cx: &ValueCtxt<C>) -> (r:
        GenApiResult<Vec<(String, FormulaValue)>>)
        ensures
            variables_env(store.nodes(), cx.values(), self.variables(), store.nodes().len()) matches Ok(
                env,
            ) ==> (r matches Ok(out) && env_view(out@) == self.env() + env + named_view(
                self.constant_values(),
            )),
            variables_env(store.nodes(), cx.values(), self.variables(), store.nodes().len()) matches Err(
                e,
            ) ==> r == Err::<Vec<(String, FormulaValue)>, GenApiError>(e),
    {
        let mut this = self;
        this.collect_variables(store, cx)?;
        let ghost mid = this.env();
        let mut i: usize = 0;
        assert(named_view(this.constants@.subrange(0, 0)) =~= Seq::<(Seq<char>, FormulaValue)>::empty());
        assert(mid + seq![] =~= mid);
        while i < this.constants.len()
            invariant
                i <= this.constants@.len(),
                this.constants@ == self.constants@,
                this.env() == mid + named_view(this.constants@.subrange(0, i as int)),
            decreases this.constants@.len() - i,
        {
            let name = this.constants[i].name.clone();
            let value = this.constants[i].value;
            let ghost before = this.env();
            let ghost n = name@;
            assert(n == this.constants@[i as int].name@);
            this.var_env.push((name, value));
            assert(this.env() =~= before.push((n, value)));
            proof {
                assert(named_view(this.constants@.subrange(0, i + 1)) =~= named_view(
                    this.constants@.subrange(0, i as int),
                ).push((this.constants@[i as int].name@, value)));
                assert(this.env() =~= mid + named_view(this.constants@.subrange(0, i + 1)));
            }
            i = i + 1;
        }
        assert(this.constants@.subrange(0, i as int) =~= this.constants@);
        Ok(this.var_env)
    }
}

proof fn lemma_env_err(
    nodes: Seq<Option<NodeData>>,
    values: Seq<ValueData>,
    vars: Seq<NamedValue<NodeId>>,
    i: int,
    fuel: nat,
)
    requires
        0 <= i <= vars.len(),
        variables_env(nodes, values, vars.subrange(0, i), fuel) is Err,
    ensures
        variables_env(nodes, values, vars, fuel) == variables_env(
            nodes,
            values,
            vars.subrange(0, i),
            fuel,
        ),
    decreases vars.len() - i,
{
    if i < vars.len() {
        assert(vars.subrange(0, i + 1).drop_last() =~= vars.subrange(0, i));
        lemma_env_err(nodes, values, vars, i + 1, fuel);
    } else {
        assert(vars.subrange(0, i) =~= vars);
    }
}

proof fn lemma_readable_err(
    nodes: Seq<Option<NodeData>>,
    values: Seq<ValueData>,
    vars: Seq<NamedValue<NodeId>>,
    i: int,
    fuel: nat,
)
    requires
        0 <= i <= vars.len(),
        variables_readable(nodes, values, vars.subrange(0, i), fuel) is Err,
    ensures
        variables_readable(nodes, values, vars, fuel) == variables_readable(
            nodes,
            values,
            vars.subrange(0, i),
            fuel,
        ),
    decreases vars.len() - i,
{
    if i < vars.len() {
        assert(vars.subrange(0, i + 1).drop_last() =~= vars.subrange(0, i));
        lemma_readable_err(nodes, values, vars, i + 1, fuel);
    } else {
        assert(vars.subrange(0, i) =~= vars);
    }
}

/// Writes the integer result of a formula to node `nid`: an integer node
/// takes it as its value, an enumeration selects the entry of that value.
/// Any other node is `InvalidNode`.
pub fn set_eval_result<C: CacheStore>(
    nid: NodeId,
    result: i64,
    store: &DefaultNodeStore,
    cx: &mut ValueCtxt<C>,
) -> (r: GenApiResult<()>)
    ensures
        only_clears(old(cx).cache_store, final(cx).cache_store),
        node_at(store.nodes(), nid) matches Some(NodeData::Integer(n)) ==> write_matches(
            r,
            final(cx).values(),
            set_kind(store.nodes(), old(cx).values(), n.value_kind, result, store.nodes().len()),
        ),
        node_at(store.nodes(), nid) matches Some(NodeData::Enumeration(n)) ==> write_matches(
            r,
            final(cx).values(),
            select_by_value(store.nodes(), old(cx).values(), *n, result, store.nodes().len()),
        ),
        node_at(store.nodes(), nid) matches Some(NodeData::EnumEntry(_)) || node_at(
            store.nodes(),
            nid,
        ) matches Some(NodeData::IntReg(_)) || node_at(store.nodes(), nid) is None ==> r
            == Err::<(), GenApiError>(GenApiError::InvalidNode) && *final(cx) == *old(cx),
{
    match store.node_opt(nid) {
        Some(NodeData::Integer(n)) => n.set_value(result, store, cx),
        Some(NodeData::Enumeration(n)) => n.set_entry_by_value(result, store, cx),
        _ => Err(GenApiError::InvalidNode),
    }
}

} // verus!
