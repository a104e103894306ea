//! The statement-level IR that the lowering reads and produces.

use crate::arena::List;
use crate::arena::arena_alloc;
use crate::layout::Builtin;
use crate::layout::Fields;
use crate::layout::IntWidth;
use crate::layout::Layout;
use crate::layout::UnionLayout;
use crate::symbol::JoinPointId;
use crate::symbol::Symbol;
use bumpalo::Bump;
use vstd::prelude::*;

verus! {

/// The primitive operations that emitted code calls.
#[derive(Clone, Copy, Debug, PartialEq, Eq, Hash, Structural)]
pub enum LowLevel {
    /// Length of a list.
    ListLen,
    NumAdd,
    NumSub,
    NumMul,
    /// Signed greater-than-or-equal.
    NumGte,
    Eq,
    /// Bitwise and.
    And,
    /// Reinterprets a pointer as an integer or back.
    PtrCast,
    /// Runtime primitive: adds an amount to the counter behind a pointer.
    RefCountInc,
    /// Runtime primitive: takes one from the counter behind a pointer and
    /// frees the block, at the given alignment, when it reaches zero.
    RefCountDec,
}

/// Identifies an in-place update opportunity; the lowering has none.
#[derive(Clone, Copy, Debug, PartialEq, Eq, Hash, Structural)]
pub struct UpdateModeId {
    pub id: u32,
}

impl UpdateModeId {
    pub open spec fn spec_backend_dummy() -> UpdateModeId {
        UpdateModeId { id: 0 }
    }

    #[verifier::when_used_as_spec(spec_backend_dummy)]
    pub fn backend_dummy() -> (id: UpdateModeId)
        ensures
            id == UpdateModeId::spec_backend_dummy(),
    {
        UpdateModeId { id: 0 }
    }
}

/// Identifies a call site for specialization; the lowering has none.
#[derive(Clone, Copy, Debug, PartialEq, Eq, Hash, Structural)]
pub struct CallSpecId {
    pub id: u32,
}

impl CallSpecId {
    pub open spec fn spec_backend_dummy() -> CallSpecId {
        CallSpecId { id: 0 }
    }

    #[verifier::when_used_as_spec(spec_backend_dummy)]
    pub fn backend_dummy() -> (id: CallSpecId)
        ensures
            id == CallSpecId::spec_backend_dummy(),
    {
        CallSpecId { id: 0 }
    }
}

#[derive(Clone, Copy, Debug, PartialEq, Eq)]
pub enum CallType<'a> {
    /// A call of a procedure by its name.
    ByName {
        name: Symbol,
        ret_layout: &'a Layout<'a>,
        arg_layouts: &'a Fields<'a>,
        specialization_id: CallSpecId,
    },
    /// A call of a primitive.
    LowLevel { op: LowLevel, update_mode: UpdateModeId },
}

#[derive(Clone, Copy, Debug, PartialEq, Eq)]
pub struct Call<'a> {
    pub call_type: CallType<'a>,
    pub arguments: &'a List<'a, Symbol>,
}

#[derive(Clone, Copy, Debug, PartialEq, Eq)]
pub enum Literal {
    Int(i128),
    Bool(bool),
    Byte(u8),
}

#[derive(Clone, Copy, Debug, PartialEq, Eq)]
pub enum Expr<'a> {
    Literal(Literal),
    Call(Call<'a>),
    /// A record of the given fields.
    Struct(&'a List<'a, Symbol>),
    /// Field `index` of a record.
    StructAtIndex { index: u64, field_layouts: &'a Fields<'a>, structure: Symbol },
    /// The tag id of a union value.
    GetTagId { structure: Symbol, union_layout: UnionLayout<'a> },
    /// Field `index` of constructor `tag_id` of a union value.
    UnionAtIndex { structure: Symbol, tag_id: u16, union_layout: UnionLayout<'a>, index: u64 },
}

/// A formal parameter of a join point.
#[derive(Clone, Copy, Debug, PartialEq, Eq)]
pub struct Param<'a> {
    pub symbol: Symbol,
    pub borrow: bool,
    pub layout: Layout<'a>,
}

/// What a branch of a switch lets the reader conclude.
#[derive(Clone, Copy, Debug, PartialEq, Eq)]
pub enum BranchInfo<'a> {
    /// Nothing.
    Unknown,
    Constructor { scrutinee: Symbol, layout: Layout<'a>, tag_id: u16 },
}

/// One branch of a switch: the value it is taken on, and its statement.
pub type Branch<'a> = (u64, BranchInfo<'a>, Stmt<'a>);

#[derive(Clone, Copy, Debug, PartialEq, Eq)]
pub enum Stmt<'a> {
    /// Binds a symbol to the value of an expression, then continues.
    Let(Symbol, Expr<'a>, Layout<'a>, &'a Stmt<'a>),
    /// Continues at the first branch whose value the condition has, or at
    /// the default branch.
    Switch {
        cond_symbol: Symbol,
        cond_layout: Layout<'a>,
        branches: &'a List<'a, Branch<'a>>,
        default_branch: (BranchInfo<'a>, &'a Stmt<'a>),
        ret_layout: Layout<'a>,
    },
    /// Returns a value from the procedure.
    Ret(Symbol),
    /// Declares the join point `id`, whose body runs when `remainder` jumps
    /// to it.
    Join {
        id: JoinPointId,
        parameters: &'a List<'a, Param<'a>>,
        body: &'a Stmt<'a>,
        remainder: &'a Stmt<'a>,
    },
    /// Jumps to a join point.
    Jump(JoinPointId, &'a List<'a, Symbol>),
}

/// An abstract reference-count operation on a value.
#[derive(Clone, Copy, Debug, PartialEq, Eq)]
pub enum ModifyRc {
    /// Add the amount to the count of the value and of what it owns.
    Inc(Symbol, u64),
    /// Take one from the count of the value and of what it owns.
    Dec(Symbol),
    /// Drop the outermost heap block only.
    DecRef(Symbol),
}

pub open spec fn spec_layout_bool<'a>() -> Layout<'a> {
    Layout::Builtin(Builtin::Bool)
}

/// Layout of a condition.
#[verifier::when_used_as_spec(spec_layout_bool)]
pub fn layout_bool<'a>() -> (l: Layout<'a>)
    ensures
        l == spec_layout_bool(),
{
    Layout::Builtin(Builtin::Bool)
}

pub open spec fn spec_layout_unit<'a>() -> Layout<'a> {
    Layout::Struct(&List::Nil)
}

/// Layout of the empty record.
#[verifier::when_used_as_spec(spec_layout_unit)]
pub fn layout_unit<'a>() -> (l: Layout<'a>)
    ensures
        l == spec_layout_unit(),
{
    Layout::Struct(&List::Nil)
}

pub open spec fn spec_layout_ptr<'a>() -> Layout<'a> {
    Layout::RecursivePointer
}

/// Layout of a bare pointer.
#[verifier::when_used_as_spec(spec_layout_ptr)]
pub fn layout_ptr<'a>() -> (l: Layout<'a>)
    ensures
        l == spec_layout_ptr(),
{
    Layout::RecursivePointer
}

pub open spec fn spec_layout_u32<'a>() -> Layout<'a> {
    Layout::Builtin(Builtin::Int(IntWidth::U32))
}

/// Layout of an alignment argument.
#[verifier::when_used_as_spec(spec_layout_u32)]
pub fn layout_u32<'a>() -> (l: Layout<'a>)
    ensures
        l == spec_layout_u32(),
{
    Layout::Builtin(Builtin::Int(IntWidth::U32))
}

/// The list of one symbol.
pub open spec fn args1<'a>(a: Symbol) -> List<'a, Symbol> {
    List::Cons(a, &List::Nil)
}

/// The list of two symbols.
pub open spec fn args2<'a>(a: Symbol, b: Symbol) -> List<'a, Symbol> {
    List::Cons(a, &List::Cons(b, &List::Nil))
}

/// Allocates the list of one symbol.
pub fn alloc_args1<'a>(arena: &'a Bump, a: Symbol) -> (r: &'a List<'a, Symbol>)
    ensures
        *r == args1(a),
{
    arena_alloc(arena, List::Cons(a, arena_alloc(arena, List::Nil)))
}

/// Allocates the list of two symbols.
pub fn alloc_args2<'a>(arena: &'a Bump, a: Symbol, b: Symbol) -> (r: &'a List<'a, Symbol>)
    ensures
        *r == args2(a, b),
{
    let tail = arena_alloc(arena, List::Cons(b, arena_alloc(arena, List::Nil)));
    arena_alloc(arena, List::Cons(a, tail))
}

/// The expression that calls primitive `op` on `arguments`.
pub open spec fn lowlevel_call<'a>(op: LowLevel, arguments: List<'a, Symbol>) -> Expr<'a> {
    Expr::Call(
        Call {
            call_type: CallType::LowLevel { op, update_mode: UpdateModeId::spec_backend_dummy() },
            arguments: &arguments,
        },
    )
}

/// `let result = op(arguments); next`
pub open spec fn spec_let_lowlevel<'a>(
    result_layout: Layout<'a>,
    result: Symbol,
    op: LowLevel,
    arguments: List<'a, Symbol>,
    next: Stmt<'a>,
) -> Stmt<'a> {
    Stmt::Let(result, lowlevel_call(op, arguments), result_layout, &next)
}

/// Binds `result` to the value of primitive `op` on `arguments`, then
/// continues with `next`.
pub fn let_lowlevel<'a>(
    result_layout: Layout<'a>,
    result: Symbol,
    op: LowLevel,
    arguments: &'a List<'a, Symbol>,
    next: &'a Stmt<'a>,
) -> (stmt: Stmt<'a>)
    ensures
        stmt == spec_let_lowlevel(result_layout, result, op, *arguments, *next),
{
    Stmt::Let(
        result,
        Expr::Call(
            Call {
                call_type: CallType::LowLevel { op, update_mode: UpdateModeId::backend_dummy() },
                arguments,
            },
        ),
        result_layout,
        next,
    )
}

} // verus!
