//! Symbols of the IR and the table that mints fresh ones.

use vstd::prelude::*;

verus! {

/// The module reserved for the formal parameters of helper procedures.
pub const PARAMS_MODULE: u32 = 0;

/// A name in the IR: the module it belongs to and its index in that
/// module's identifier table.
#[derive(Clone, Copy, Debug, PartialEq, Eq, Hash, Structural)]
pub struct Symbol {
    pub module_id: u32,
    pub ident_id: usize,
}

impl Symbol {
    pub open spec fn spec_arg_1() -> Symbol {
        Symbol { module_id: PARAMS_MODULE, ident_id: 1 }
    }

    pub open spec fn spec_arg_2() -> Symbol {
        Symbol { module_id: PARAMS_MODULE, ident_id: 2 }
    }

    /// First formal parameter of a helper procedure: the value itself.
    #[verifier::when_used_as_spec(spec_arg_1)]
    pub fn arg_1() -> (s: Symbol)
        ensures
            s == Symbol::spec_arg_1(),
    {
        Symbol { module_id: PARAMS_MODULE, ident_id: 1 }
    }

    /// Second formal parameter of a helper procedure: the increment amount.
    #[verifier::when_used_as_spec(spec_arg_2)]
    pub fn arg_2() -> (s: Symbol)
        ensures
            s == Symbol::spec_arg_2(),
    {
        Symbol { module_id: PARAMS_MODULE, ident_id: 2 }
    }
}

/// The label of a join point.
#[derive(Clone, Copy, Debug, PartialEq, Eq, Hash, Structural)]
pub struct JoinPointId(pub Symbol);

/// The identifier table of one module. Each entry is the debug name of the
/// identifier whose index it sits at.
#[derive(Debug)]
pub struct IdentIds {
    pub names: Vec<&'static str>,
}

impl View for IdentIds {
    type V = Seq<&'static str>;

    open spec fn view(&self) -> Seq<&'static str> {
        self.names@
    }
}

impl IdentIds {
    /// An empty table.
    pub fn new() -> (ids: IdentIds)
        ensures
            ids@ == Seq::<&'static str>::empty(),
    {
        IdentIds { names: Vec::new() }
    }

    /// Number of identifiers minted so far.
    pub fn len(&self) -> (n: usize)
        ensures
            n == self@.len(),
    {
        self.names.len()
    }

    /// Appends `name` and returns the index it received, which no earlier
    /// identifier of this table has.
    pub fn add(&mut self, name: &'static str) -> (id: usize)
        ensures
            id == old(self)@.len(),
            final(self)@ == old(self)@.push(name),
    {
        let id = self.names.len();
        self.names.push(name);
        id
    }
}

} // verus!
