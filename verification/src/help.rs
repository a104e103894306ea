//! State shared by the lowering: the target description, the fresh-symbol
//! supply, and the registry of helper procedures.

use crate::arena::List;
use crate::arena::arena_alloc;
use crate::ir::Call;
use crate::ir::CallSpecId;
use crate::ir::CallType;
use crate::ir::Expr;
use crate::ir::layout_unit;
use crate::ir::spec_layout_unit;
use crate::layout::Builtin;
use crate::layout::IntWidth;
use crate::layout::Layout;
use crate::layout::UnionLayout;
use crate::layout::layout_eq;
use crate::symbol::IdentIds;
use crate::symbol::JoinPointId;
use crate::symbol::Symbol;
use bumpalo::Bump;
use vstd::prelude::*;

verus! {

/// The operation that the code being emitted performs.
#[derive(Clone, Copy, Debug, PartialEq, Eq, Structural)]
pub enum HelperOp {
    Inc,
    Dec,
    /// Drop the outermost block only, then jump to the given join point.
    DecRef(JoinPointId),
}

impl HelperOp {
    pub open spec fn spec_is_decref(&self) -> bool {
        self is DecRef
    }

    #[verifier::when_used_as_spec(spec_is_decref)]
    pub fn is_decref(&self) -> (b: bool)
        ensures
            b == self.spec_is_decref(),
    {
        match self {
            HelperOp::DecRef(_) => true,
            _ => false,
        }
    }

    pub open spec fn spec_is_inc(&self) -> bool {
        self is Inc
    }

    #[verifier::when_used_as_spec(spec_is_inc)]
    pub fn is_inc(&self) -> (b: bool)
        ensures
            b == self.spec_is_inc(),
    {
        match self {
            HelperOp::Inc => true,
            _ => false,
        }
    }

    /// Debug name of a helper procedure for the operation.
    pub open spec fn spec_helper_name(&self) -> &'static str {
        match self {
            HelperOp::Inc => "#help_inc",
            HelperOp::Dec => "#help_dec",
            HelperOp::DecRef(_) => "#help_decref",
        }
    }

    #[verifier::when_used_as_spec(spec_helper_name)]
    pub fn helper_name(&self) -> (name: &'static str)
        ensures
            name == self.spec_helper_name(),
    {
        match self {
            HelperOp::Inc => "#help_inc",
            HelperOp::Dec => "#help_dec",
            HelperOp::DecRef(_) => "#help_decref",
        }
    }
}

/// What changes from one emission to the next.
#[derive(Clone, Copy, Debug)]
pub struct Context<'a> {
    /// The heap union whose fields are being visited, to which a
    /// `RecursivePointer` among them refers.
    pub recursive_union: Option<UnionLayout<'a>>,
    pub op: HelperOp,
}

/// A helper procedure that some emitted code calls: the key `(op, layout)`
/// and the name it was given.
#[derive(Clone, Copy, Debug)]
pub struct Specialization<'a> {
    pub op: HelperOp,
    pub layout: Layout<'a>,
    pub symbol: Symbol,
}

/// The target and the registry of helper procedures.
pub struct CodeGenHelp<'a> {
    pub arena: &'a Bump,
    /// Module in which fresh symbols are minted.
    pub home: u32,
    /// Size of a pointer on the target, in bytes.
    pub ptr_size: u32,
    /// The signed integer as wide as a pointer.
    pub layout_isize: Layout<'a>,
    pub specializations: Vec<Specialization<'a>>,
}

/// The part of `CodeGenHelp` that never changes.
pub struct Env<'a> {
    pub home: u32,
    pub ptr_size: u32,
    pub layout_isize: Layout<'a>,
}

/// The part of the state that emission advances: the identifier table and
/// the registry.
pub struct Gen<'a> {
    pub idents: Seq<&'static str>,
    pub specs: Seq<Specialization<'a>>,
}

/// The symbol that the next identifier of the table gets, and the table
/// after it was added under `name`.
pub open spec fn mint<'a>(env: Env<'a>, g: Gen<'a>, name: &'static str) -> (Symbol, Gen<'a>) {
    (
        Symbol { module_id: env.home, ident_id: g.idents.len() as usize },
        Gen { idents: g.idents.push(name), specs: g.specs },
    )
}

/// The name registered for `(op, layout)` at or after position `from`.
pub open spec fn find_from(specs: Seq<Specialization>, op: HelperOp, layout: Layout, from: nat)
    -> Option<Symbol>
    decreases specs.len() - from,
{
    if from >= specs.len() {
        None
    } else if specs[from as int].op == op && specs[from as int].layout == layout {
        Some(specs[from as int].symbol)
    } else {
        find_from(specs, op, layout, from + 1)
    }
}

/// No two entries of the registry have the same key.
pub open spec fn keys_unique(specs: Seq<Specialization>) -> bool {
    forall|i: int, j: int|
        0 <= i < j < specs.len() ==> !(specs[i].op == specs[j].op && specs[i].layout
            == specs[j].layout)
}

/// Where the search finds nothing, no entry from `from` on has the key.
pub proof fn lemma_find_none(specs: Seq<Specialization>, op: HelperOp, layout: Layout, from: nat)
    requires
        find_from(specs, op, layout, from) is None,
    ensures
        forall|i: int| from <= i < specs.len() ==> !(specs[i].op == op && specs[i].layout == layout),
    decreases specs.len() - from,
{
    if from < specs.len() {
        lemma_find_none(specs, op, layout, from + 1);
    }
}

/// The layout a helper is made for when `called` is asked for: a
/// `RecursivePointer` stands for the enclosing union.
pub open spec fn resolve_layout<'a>(ctx: Context<'a>, called: Layout<'a>) -> Option<Layout<'a>> {
    match called {
        Layout::RecursivePointer => match ctx.recursive_union {
            Some(union_layout) => Some(Layout::Union(union_layout)),
            None => None,
        },
        _ => Some(called),
    }
}

/// The name of the helper for `(op, layout)`: the registered one, or else a
/// fresh symbol that is then registered.
pub open spec fn helper_symbol<'a>(env: Env<'a>, g: Gen<'a>, op: HelperOp, layout: Layout<'a>) -> (
    Symbol,
    Gen<'a>,
) {
    match find_from(g.specs, op, layout, 0) {
        Some(symbol) => (symbol, g),
        None => {
            let (symbol, g1) = mint(env, g, op.spec_helper_name());
            (
                symbol,
                Gen { idents: g1.idents, specs: g1.specs.push(Specialization { op, layout, symbol }) },
            )
        },
    }
}

/// Layouts of the arguments of a helper: the value, and for `Inc` the
/// amount.
pub open spec fn helper_arg_layouts<'a>(env: Env<'a>, op: HelperOp, layout: Layout<'a>) -> List<
    'a,
    Layout<'a>,
> {
    if op is Inc {
        List::Cons(layout, &List::Cons(env.layout_isize, &List::Nil))
    } else {
        List::Cons(layout, &List::Nil)
    }
}

/// The call of helper `name` on `arguments`.
pub open spec fn helper_call<'a>(
    env: Env<'a>,
    name: Symbol,
    op: HelperOp,
    layout: Layout<'a>,
    arguments: List<'a, Symbol>,
) -> Expr<'a> {
    Expr::Call(
        Call {
            call_type: CallType::ByName {
                name,
                ret_layout: &spec_layout_unit(),
                arg_layouts: &helper_arg_layouts(env, op, layout),
                specialization_id: CallSpecId::spec_backend_dummy(),
            },
            arguments: &arguments,
        },
    )
}

/// What asking for the helper of `called` under `ctx` yields: nothing where
/// `called` is a `RecursivePointer` outside any heap union, else a call by
/// name of the helper for the resolved layout and the operation of `ctx`.
pub open spec fn specialize<'a>(
    env: Env<'a>,
    g: Gen<'a>,
    ctx: Context<'a>,
    called: Layout<'a>,
    arguments: List<'a, Symbol>,
) -> (Option<Expr<'a>>, Gen<'a>) {
    match resolve_layout(ctx, called) {
        None => (None, g),
        Some(layout) => {
            let (name, g1) = helper_symbol(env, g, ctx.op, layout);
            (Some(helper_call(env, name, ctx.op, layout, arguments)), g1)
        },
    }
}

impl<'a> CodeGenHelp<'a> {
    pub open spec fn env(&self) -> Env<'a> {
        Env { home: self.home, ptr_size: self.ptr_size, layout_isize: self.layout_isize }
    }

    /// The emission state made of this registry and the table `ident_ids`.
    pub open spec fn gen(&self, ident_ids: &IdentIds) -> Gen<'a> {
        Gen { idents: ident_ids@, specs: self.specializations@ }
    }

    /// The pointer-wide integer layout matches the pointer size, and no key
    /// is registered twice.
    pub open spec fn wf(&self) -> bool {
        &&& self.layout_isize matches Layout::Builtin(Builtin::Int(width)) && self.ptr_size
            == width.spec_stack_size()
        &&& keys_unique(self.specializations@)
    }

    /// A generator for a target whose pointers are as wide as
    /// `intwidth_isize`, with an empty registry.
    pub fn new(arena: &'a Bump, intwidth_isize: IntWidth, home: u32) -> (root: CodeGenHelp<'a>)
        ensures
            root.wf(),
            root.home == home,
            root.ptr_size == intwidth_isize.spec_stack_size(),
            root.layout_isize == Layout::Builtin(Builtin::Int(intwidth_isize)),
            root.specializations@ == Seq::<Specialization<'a>>::empty(),
    {
        CodeGenHelp {
            arena,
            home,
            ptr_size: intwidth_isize.stack_size(),
            layout_isize: Layout::Builtin(Builtin::Int(intwidth_isize)),
            specializations: Vec::new(),
        }
    }

    /// Mints a fresh symbol in the home module.
    pub fn create_symbol(&self, ident_ids: &mut IdentIds, debug_name: &'static str) -> (sym: Symbol)
        ensures
            sym == mint(self.env(), self.gen(old(ident_ids)), debug_name).0,
            self.gen(final(ident_ids)) == mint(self.env(), self.gen(old(ident_ids)), debug_name).1,
    {
        let ident_id = ident_ids.add(debug_name);
        Symbol { module_id: self.home, ident_id }
    }

    /// Looks up the name registered for `(op, layout)`.
    pub fn find_specialization(&self, op: HelperOp, layout: &Layout<'a>) -> (r: Option<Symbol>)
        ensures
            r == find_from(self.specializations@, op, *layout, 0),
    {
        let mut i: usize = 0;
        while i < self.specializations.len()
            invariant
                i <= self.specializations@.len(),
                find_from(self.specializations@, op, *layout, 0) == find_from(
                    self.specializations@,
                    op,
                    *layout,
                    i as nat,
                ),
            decreases self.specializations@.len() - i,
        {
            let entry = &self.specializations[i];
            if entry.op == op && layout_eq(&entry.layout, layout) {
                return Some(entry.symbol);
            }
            i = i + 1;
        }
        None
    }

    /// Asks for the helper that performs the operation of `ctx` on values of
    /// `called_layout`, and returns the expression that calls it on
    /// `arguments`. A helper that is not registered yet gets a fresh name and
    /// is registered; its body is not made here. The answer is `None`
    /// exactly when `called_layout` is a `RecursivePointer` and `ctx` names no
    /// enclosing union.
    pub fn call_specialized_op(
        &mut self,
        ident_ids: &mut IdentIds,
        ctx: &Context<'a>,
        called_layout: Layout<'a>,
        arguments: &'a List<'a, Symbol>,
    ) -> (r: Option<Expr<'a>>)
        requires
            old(self).wf(),
        ensures
            final(self).wf(),
            final(self).env() == old(self).env(),
            final(self).arena == old(self).arena,
            r == specialize(
                old(self).env(),
                old(self).gen(old(ident_ids)),
                *ctx,
                called_layout,
                *arguments,
            ).0,
            final(self).gen(final(ident_ids)) == specialize(
                old(self).env(),
                old(self).gen(old(ident_ids)),
                *ctx,
                called_layout,
                *arguments,
            ).1,
            r is Some <==> resolve_layout(*ctx, called_layout) is Some,
    {
        let layout = match called_layout {
            Layout::RecursivePointer => match ctx.recursive_union {
                Some(union_layout) => Layout::Union(union_layout),
                None => {
                    return None;
                },
            },
            _ => called_layout,
        };
        let name = match self.find_specialization(ctx.op, &layout) {
            Some(symbol) => symbol,
            None => {
                let symbol = self.create_symbol(ident_ids, ctx.op.helper_name());
                proof {
                    lemma_find_none(self.specializations@, ctx.op, layout, 0);
                }
                self.specializations.push(Specialization { op: ctx.op, layout, symbol });
                symbol
            },
        };
        let arena = self.arena;
        let nil = arena_alloc(arena, List::Nil);
        let arg_layouts = if ctx.op.is_inc() {
            let tail = arena_alloc(arena, List::Cons(self.layout_isize, nil));
            arena_alloc(arena, List::Cons(layout, tail))
        } else {
            arena_alloc(arena, List::Cons(layout, nil))
        };
        Some(
            Expr::Call(
                Call {
                    call_type: CallType::ByName {
                        name,
                        ret_layout: arena_alloc(arena, layout_unit()),
                        arg_layouts,
                        specialization_id: CallSpecId::backend_dummy(),
                    },
                    arguments,
                },
            ),
        )
    }
}

} // verus!
