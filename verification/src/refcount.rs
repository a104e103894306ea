//! Emission of the statements that perform a reference-count operation on
//! a value of a given layout.
//!
//! Each `emit_*` function of this module describes, as a value, the
//! statement that the function it is named after builds, together with the
//! state of the identifier table and of the helper registry afterwards.

use crate::arena::List;
use crate::arena::arena_alloc;
use crate::help::CodeGenHelp;
use crate::help::Context;
use crate::help::Env;
use crate::help::Gen;
use crate::help::HelperOp;
use crate::help::mint;
use crate::help::resolve_layout;
use crate::help::specialize;
use crate::ir::Branch;
use crate::ir::BranchInfo;
use crate::ir::Expr;
use crate::ir::Literal;
use crate::ir::LowLevel;
use crate::ir::ModifyRc;
use crate::ir::Param;
use crate::ir::Stmt;
use crate::ir::alloc_args1;
use crate::ir::alloc_args2;
use crate::ir::args1;
use crate::ir::args2;
use crate::ir::layout_bool;
use crate::ir::layout_ptr;
use crate::ir::layout_u32;
use crate::ir::layout_unit;
use crate::ir::let_lowlevel;
use crate::ir::spec_layout_bool;
use crate::ir::spec_layout_ptr;
use crate::ir::spec_layout_u32;
use crate::ir::spec_layout_unit;
use crate::ir::spec_let_lowlevel;
use crate::laws::law_implemented_can_dispatch;
use crate::layout::Builtin;
use crate::layout::Fields;
use crate::layout::Layout;
use crate::layout::MAX_TAGS;
use crate::layout::Tags;
use crate::layout::UnionLayout;
use crate::layout::tags_indexable;
use crate::symbol::IdentIds;
use crate::symbol::JoinPointId;
use crate::symbol::Symbol;
use vstd::prelude::*;

verus! {

/// How emitted code ends: under `DecRef` a jump, without a value, to the
/// join point of the caller; otherwise the return of a fresh empty record.
pub open spec fn emit_return<'a>(env: Env<'a>, g: Gen<'a>, op: HelperOp) -> (Stmt<'a>, Gen<'a>) {
    match op {
        HelperOp::DecRef(jp_decref) => (Stmt::Jump(jp_decref, &List::Nil), g),
        _ => {
            let (unit, g1) = mint(env, g, "unit");
            (Stmt::Let(unit, Expr::Struct(&List::Nil), spec_layout_unit(), &Stmt::Ret(unit)), g1)
        },
    }
}

/// The statement on which emitted code ends.
pub fn rc_return_stmt<'a>(root: &CodeGenHelp<'a>, ident_ids: &mut IdentIds, ctx: &Context<'a>) -> (stmt:
    Stmt<'a>)
    ensures
        stmt == emit_return(root.env(), root.gen(old(ident_ids)), ctx.op).0,
        root.gen(final(ident_ids)) == emit_return(root.env(), root.gen(old(ident_ids)), ctx.op).1,
{
    match ctx.op {
        HelperOp::DecRef(jp_decref) => Stmt::Jump(jp_decref, arena_alloc(root.arena, List::Nil)),
        _ => {
            let unit = root.create_symbol(ident_ids, "unit");
            let ret_stmt = arena_alloc(root.arena, Stmt::Ret(unit));
            Stmt::Let(
                unit,
                Expr::Struct(arena_alloc(root.arena, List::Nil)),
                layout_unit(),
                ret_stmt,
            )
        },
    }
}

/// The arguments of a helper call on `structure`: under `Inc` the amount,
/// which every helper has as its second parameter, is passed along.
pub open spec fn helper_args<'a>(op: HelperOp, structure: Symbol) -> List<'a, Symbol> {
    if op is Inc {
        args2(structure, Symbol::spec_arg_2())
    } else {
        args1(structure)
    }
}

/// Allocates the arguments of a helper call on `structure`.
pub fn refcount_args<'a>(root: &CodeGenHelp<'a>, ctx: &Context<'a>, structure: Symbol) -> (args:
    &'a List<'a, Symbol>)
    ensures
        *args == helper_args(ctx.op, structure),
{
    if ctx.op.is_inc() {
        alloc_args2(root.arena, structure, Symbol::arg_2())
    } else {
        alloc_args1(root.arena, structure)
    }
}

/// The statements that bind `rc_ptr_sym` to the address of the counter of
/// the heap block at `structure`, one word before the data:
///
/// ```text
/// addr    = cast(structure)
/// mask    = -ptr_size            (only with mask_lower_bits)
/// masked  = addr AND mask        (only with mask_lower_bits)
/// size    = ptr_size
/// rc_addr = (masked or addr) - size
/// rc_ptr  = cast(rc_addr)
/// ```
///
/// Five symbols are minted, whether the mask is used or not.
pub open spec fn emit_rc_ptr<'a>(
    env: Env<'a>,
    g: Gen<'a>,
    structure: Symbol,
    rc_ptr_sym: Symbol,
    mask_lower_bits: bool,
    following: Stmt<'a>,
) -> (Stmt<'a>, Gen<'a>) {
    let (addr, g1) = mint(env, g, "addr");
    let (mask, g2) = mint(env, g1, "mask");
    let (masked, g3) = mint(env, g2, "masked");
    let (ptr_size, g4) = mint(env, g3, "ptr_size");
    let (rc_addr, g5) = mint(env, g4, "rc_addr");
    let cast = spec_let_lowlevel(
        spec_layout_ptr(),
        rc_ptr_sym,
        LowLevel::PtrCast,
        args1(rc_addr),
        following,
    );
    let sub = spec_let_lowlevel(
        env.layout_isize,
        rc_addr,
        LowLevel::NumSub,
        args2(
            if mask_lower_bits {
                masked
            } else {
                addr
            },
            ptr_size,
        ),
        cast,
    );
    let size = Stmt::Let(
        ptr_size,
        Expr::Literal(Literal::Int(env.ptr_size as i128)),
        env.layout_isize,
        &sub,
    );
    let rest = if mask_lower_bits {
        Stmt::Let(
            mask,
            Expr::Literal(Literal::Int((-(env.ptr_size as int)) as i128)),
            env.layout_isize,
            &spec_let_lowlevel(env.layout_isize, masked, LowLevel::And, args2(addr, mask), size),
        )
    } else {
        size
    };
    (spec_let_lowlevel(env.layout_isize, addr, LowLevel::PtrCast, args1(structure), rest), g5)
}

/// Emits the computation of the address of the counter that precedes the
/// data at `structure`. The address is handled as an integer between two
/// casts, so that it has one symbol and layout as a pointer and another
/// as a number.
pub fn rc_ptr_from_data_ptr<'a>(
    root: &CodeGenHelp<'a>,
    ident_ids: &mut IdentIds,
    structure: Symbol,
    rc_ptr_sym: Symbol,
    mask_lower_bits: bool,
    following: &'a Stmt<'a>,
) -> (stmt: Stmt<'a>)
    ensures
        stmt == emit_rc_ptr(
            root.env(),
            root.gen(old(ident_ids)),
            structure,
            rc_ptr_sym,
            mask_lower_bits,
            *following,
        ).0,
        root.gen(final(ident_ids)) == emit_rc_ptr(
            root.env(),
            root.gen(old(ident_ids)),
            structure,
            rc_ptr_sym,
            mask_lower_bits,
            *following,
        ).1,
{
    let arena = root.arena;
    let layout_isize = root.layout_isize;
    let addr_sym = root.create_symbol(ident_ids, "addr");
    let mask_sym = root.create_symbol(ident_ids, "mask");
    let masked_sym = root.create_symbol(ident_ids, "masked");
    let ptr_size_sym = root.create_symbol(ident_ids, "ptr_size");
    let rc_addr_sym = root.create_symbol(ident_ids, "rc_addr");

    let cast_stmt = let_lowlevel(
        layout_ptr(),
        rc_ptr_sym,
        LowLevel::PtrCast,
        alloc_args1(arena, rc_addr_sym),
        following,
    );
    let minuend = if mask_lower_bits {
        masked_sym
    } else {
        addr_sym
    };
    let sub_stmt = let_lowlevel(
        layout_isize,
        rc_addr_sym,
        LowLevel::NumSub,
        alloc_args2(arena, minuend, ptr_size_sym),
        arena_alloc(arena, cast_stmt),
    );
    let ptr_size_stmt = Stmt::Let(
        ptr_size_sym,
        Expr::Literal(Literal::Int(root.ptr_size as i128)),
        layout_isize,
        arena_alloc(arena, sub_stmt),
    );
    let rest = if mask_lower_bits {
        let and_stmt = let_lowlevel(
            layout_isize,
            masked_sym,
            LowLevel::And,
            alloc_args2(arena, addr_sym, mask_sym),
            arena_alloc(arena, ptr_size_stmt),
        );
        Stmt::Let(
            mask_sym,
            Expr::Literal(Literal::Int(-(root.ptr_size as i128))),
            layout_isize,
            arena_alloc(arena, and_stmt),
        )
    } else {
        ptr_size_stmt
    };
    let_lowlevel(
        layout_isize,
        addr_sym,
        LowLevel::PtrCast,
        alloc_args1(arena, structure),
        arena_alloc(arena, rest),
    )
}

/// The call of the runtime primitive on the counter at `rc_ptr`:
/// `RefCountInc(rc_ptr, amount)` under `Inc`, where the amount is the second
/// parameter of the helper and `alignment` is not used; otherwise
/// `RefCountDec(rc_ptr, alignment)`, the alignment bound to a 32-bit
/// literal first.
pub open spec fn emit_modify<'a>(
    env: Env<'a>,
    g: Gen<'a>,
    op: HelperOp,
    rc_ptr: Symbol,
    alignment: u32,
    following: Stmt<'a>,
) -> (Stmt<'a>, Gen<'a>) {
    let (call_result, g1) = mint(env, g, "rc_call_result");
    if op is Inc {
        (
            spec_let_lowlevel(
                spec_layout_unit(),
                call_result,
                LowLevel::RefCountInc,
                args2(rc_ptr, Symbol::spec_arg_2()),
                following,
            ),
            g1,
        )
    } else {
        let (alignment_sym, g2) = mint(env, g1, "alignment");
        (
            Stmt::Let(
                alignment_sym,
                Expr::Literal(Literal::Int(alignment as i128)),
                spec_layout_u32(),
                &spec_let_lowlevel(
                    spec_layout_unit(),
                    call_result,
                    LowLevel::RefCountDec,
                    args2(rc_ptr, alignment_sym),
                    following,
                ),
            ),
            g2,
        )
    }
}

/// Emits the one call of the runtime that changes the counter at `rc_ptr`.
pub fn modify_refcount<'a>(
    root: &CodeGenHelp<'a>,
    ident_ids: &mut IdentIds,
    ctx: &Context<'a>,
    rc_ptr: Symbol,
    alignment: u32,
    following: &'a Stmt<'a>,
) -> (stmt: Stmt<'a>)
    ensures
        stmt == emit_modify(
            root.env(),
            root.gen(old(ident_ids)),
            ctx.op,
            rc_ptr,
            alignment,
            *following,
        ).0,
        root.gen(final(ident_ids)) == emit_modify(
            root.env(),
            root.gen(old(ident_ids)),
            ctx.op,
            rc_ptr,
            alignment,
            *following,
        ).1,
{
    let arena = root.arena;
    let call_result = root.create_symbol(ident_ids, "rc_call_result");
    if ctx.op.is_inc() {
        let_lowlevel(
            layout_unit(),
            call_result,
            LowLevel::RefCountInc,
            alloc_args2(arena, rc_ptr, Symbol::arg_2()),
            following,
        )
    } else {
        let alignment_sym = root.create_symbol(ident_ids, "alignment");
        let call_stmt = let_lowlevel(
            layout_unit(),
            call_result,
            LowLevel::RefCountDec,
            alloc_args2(arena, rc_ptr, alignment_sym),
            following,
        );
        Stmt::Let(
            alignment_sym,
            Expr::Literal(Literal::Int(alignment as i128)),
            layout_u32(),
            arena_alloc(arena, call_stmt),
        )
    }
}

/// The outer phase for the heap block at `data_ptr`: locate its counter,
/// change it, then end.
pub open spec fn emit_outer<'a>(
    env: Env<'a>,
    g: Gen<'a>,
    op: HelperOp,
    data_ptr: Symbol,
    rc_ptr: Symbol,
    mask_lower_bits: bool,
    alignment: u32,
    following: Stmt<'a>,
) -> (Stmt<'a>, Gen<'a>) {
    let (modify, g1) = emit_modify(env, g, op, rc_ptr, alignment, following);
    emit_rc_ptr(env, g1, data_ptr, rc_ptr, mask_lower_bits, modify)
}

/// The two field layouts of a string or list record whose elements have
/// layout `elements`.
pub open spec fn record_layouts<'a>(env: Env<'a>, elements: Layout<'a>) -> Fields<'a> {
    List::Cons(elements, &List::Cons(env.layout_isize, &List::Nil))
}

/// The statement for a string at `string`:
///
/// ```text
/// len        = string.1
/// zero       = 0
/// is_big_str = len >= zero
/// switch is_big_str:
///     1:       elements = string.0; <counter of elements, no mask>; end
///     default: end
/// ```
///
/// A negative length marks a small string, which has no heap block; its
/// branch touches no counter. The alignment passed on a decrement is the
/// pointer size.
pub open spec fn emit_str<'a>(env: Env<'a>, g: Gen<'a>, op: HelperOp, string: Symbol) -> (
    Stmt<'a>,
    Gen<'a>,
) {
    let (len, g1) = mint(env, g, "len");
    let (zero, g2) = mint(env, g1, "zero");
    let (is_big_str, g3) = mint(env, g2, "is_big_str");
    let (elements, g4) = mint(env, g3, "elements");
    let (rc_ptr, g5) = mint(env, g4, "rc_ptr");
    let (ret, g6) = emit_return(env, g5, op);
    let (outer, g7) = emit_outer(env, g6, op, elements, rc_ptr, false, env.ptr_size, ret);
    let (small, g8) = emit_return(env, g7, op);
    let fields = record_layouts(env, spec_layout_ptr());
    let then_branch = Stmt::Let(
        elements,
        Expr::StructAtIndex { index: 0, field_layouts: &fields, structure: string },
        env.layout_isize,
        &outer,
    );
    let if_stmt = Stmt::Switch {
        cond_symbol: is_big_str,
        cond_layout: spec_layout_bool(),
        branches: &List::Cons((1u64, BranchInfo::Unknown, then_branch), &List::Nil),
        default_branch: (BranchInfo::Unknown, &small),
        ret_layout: spec_layout_unit(),
    };
    (
        Stmt::Let(
            len,
            Expr::StructAtIndex { index: 1, field_layouts: &fields, structure: string },
            env.layout_isize,
            &Stmt::Let(
                zero,
                Expr::Literal(Literal::Int(0)),
                env.layout_isize,
                &spec_let_lowlevel(
                    spec_layout_bool(),
                    is_big_str,
                    LowLevel::NumGte,
                    args2(len, zero),
                    if_stmt,
                ),
            ),
        ),
        g8,
    )
}

/// Allocates the two field layouts of a string or list record.
fn alloc_record_layouts<'a>(root: &CodeGenHelp<'a>, elements: Layout<'a>) -> (r: &'a Fields<'a>)
    ensures
        *r == record_layouts(root.env(), elements),
{
    let nil = arena_alloc(root.arena, List::Nil);
    let tail = arena_alloc(root.arena, List::Cons(root.layout_isize, nil));
    arena_alloc(root.arena, List::Cons(elements, tail))
}

/// Emits the statement that changes the count of the string at `string`.
pub fn refcount_str<'a>(
    root: &CodeGenHelp<'a>,
    ident_ids: &mut IdentIds,
    ctx: &Context<'a>,
    string: Symbol,
) -> (stmt: Stmt<'a>)
    ensures
        stmt == emit_str(root.env(), root.gen(old(ident_ids)), ctx.op, string).0,
        root.gen(final(ident_ids)) == emit_str(
            root.env(),
            root.gen(old(ident_ids)),
            ctx.op,
            string,
        ).1,
{
    let arena = root.arena;
    let layout_isize = root.layout_isize;
    let len = root.create_symbol(ident_ids, "len");
    let zero = root.create_symbol(ident_ids, "zero");
    let is_big_str = root.create_symbol(ident_ids, "is_big_str");
    let elements = root.create_symbol(ident_ids, "elements");
    let rc_ptr = root.create_symbol(ident_ids, "rc_ptr");
    let alignment = root.ptr_size;

    let ret_unit_stmt = rc_return_stmt(root, ident_ids, ctx);
    let mod_rc_stmt = modify_refcount(
        root,
        ident_ids,
        ctx,
        rc_ptr,
        alignment,
        arena_alloc(arena, ret_unit_stmt),
    );
    let rc_ptr_stmt = rc_ptr_from_data_ptr(
        root,
        ident_ids,
        elements,
        rc_ptr,
        false,
        arena_alloc(arena, mod_rc_stmt),
    );
    let small_stmt = rc_return_stmt(root, ident_ids, ctx);

    let field_layouts = alloc_record_layouts(root, layout_ptr());
    let then_branch = Stmt::Let(
        elements,
        Expr::StructAtIndex { index: 0, field_layouts, structure: string },
        layout_isize,
        arena_alloc(arena, rc_ptr_stmt),
    );
    let nil = arena_alloc(arena, List::Nil);
    let if_stmt = Stmt::Switch {
        cond_symbol: is_big_str,
        cond_layout: layout_bool(),
        branches: arena_alloc(arena, List::Cons((1u64, BranchInfo::Unknown, then_branch), nil)),
        default_branch: (BranchInfo::Unknown, arena_alloc(arena, small_stmt)),
        ret_layout: layout_unit(),
    };
    let is_big_str_stmt = let_lowlevel(
        layout_bool(),
        is_big_str,
        LowLevel::NumGte,
        alloc_args2(arena, len, zero),
        arena_alloc(arena, if_stmt),
    );
    let zero_stmt = Stmt::Let(
        zero,
        Expr::Literal(Literal::Int(0)),
        layout_isize,
        arena_alloc(arena, is_big_str_stmt),
    );
    Stmt::Let(
        len,
        Expr::StructAtIndex { index: 1, field_layouts, structure: string },
        layout_isize,
        arena_alloc(arena, zero_stmt),
    )
}

/// Where the fields that a walk visits are read from.
#[derive(Clone, Copy, Debug)]
pub enum FieldSource<'a> {
    /// A record with the given field layouts.
    Record(&'a Fields<'a>),
    /// One constructor of a union.
    Constructor(UnionLayout<'a>, u16),
}

impl<'a> FieldSource<'a> {
    /// The expression that reads field `index` of `structure`.
    pub open spec fn spec_field_expr(&self, structure: Symbol, index: u64) -> Expr<'a> {
        match self {
            FieldSource::Record(field_layouts) => Expr::StructAtIndex {
                index,
                field_layouts: *field_layouts,
                structure,
            },
            FieldSource::Constructor(union_layout, tag_id) => Expr::UnionAtIndex {
                structure,
                tag_id: *tag_id,
                union_layout: *union_layout,
                index,
            },
        }
    }

    #[verifier::when_used_as_spec(spec_field_expr)]
    pub fn field_expr(&self, structure: Symbol, index: u64) -> (expr: Expr<'a>)
        ensures
            expr == self.spec_field_expr(structure, index),
    {
        match self {
            FieldSource::Record(field_layouts) => Expr::StructAtIndex {
                index,
                field_layouts: *field_layouts,
                structure,
            },
            FieldSource::Constructor(union_layout, tag_id) => Expr::UnionAtIndex {
                structure,
                tag_id: *tag_id,
                union_layout: *union_layout,
                index,
            },
        }
    }
}

/// Whether a helper can be asked for under `ctx` for every field of
/// `fields` that holds something counted.
pub open spec fn fields_resolvable<'a>(ctx: Context<'a>, fields: Fields<'a>) -> bool
    decreases fields,
{
    match fields {
        List::Nil => true,
        List::Cons(head, tail) => (head.spec_contains_refcounted() ==> resolve_layout(ctx, head)
            is Some) && fields_resolvable(ctx, *tail),
    }
}

/// `fields_resolvable` for every constructor of `tags`.
pub open spec fn tags_resolvable<'a>(ctx: Context<'a>, tags: Tags<'a>) -> bool
    decreases tags,
{
    match tags {
        List::Nil => true,
        List::Cons(head, tail) => fields_resolvable(ctx, *head) && tags_resolvable(ctx, *tail),
    }
}

/// The walk over the fields `rest`, the first of which has index `index`:
/// for each field that holds something counted, in index order,
///
/// ```text
/// field_val = structure.index
/// mod_field = helper(field layout, op)(field_val [, amount])
/// ```
///
/// and then `tail`. Fields that hold nothing counted are passed over.
/// Symbols are minted, and helpers asked for, from the last field to the
/// first.
pub open spec fn emit_fields<'a>(
    env: Env<'a>,
    g: Gen<'a>,
    ctx: Context<'a>,
    source: FieldSource<'a>,
    rest: Fields<'a>,
    index: u64,
    structure: Symbol,
    tail: Stmt<'a>,
) -> (Stmt<'a>, Gen<'a>)
    decreases rest,
{
    match rest {
        List::Nil => (tail, g),
        List::Cons(field, more) => {
            let (inner, g1) = emit_fields(
                env,
                g,
                ctx,
                source,
                *more,
                (index + 1) as u64,
                structure,
                tail,
            );
            if field.spec_contains_refcounted() {
                let (field_val, g2) = mint(env, g1, "field_val");
                let (mod_unit, g3) = mint(env, g2, "mod_field");
                let (call, g4) = specialize(env, g3, ctx, field, helper_args(ctx.op, field_val));
                (
                    Stmt::Let(
                        field_val,
                        source.spec_field_expr(structure, index),
                        field,
                        &Stmt::Let(mod_unit, call.unwrap(), spec_layout_unit(), &inner),
                    ),
                    g4,
                )
            } else {
                (inner, g1)
            }
        },
    }
}

/// Emits the walk over the fields `rest` of `structure`.
fn refcount_fields<'a>(
    root: &mut CodeGenHelp<'a>,
    ident_ids: &mut IdentIds,
    ctx: &Context<'a>,
    source: FieldSource<'a>,
    rest: &Fields<'a>,
    index: u64,
    structure: Symbol,
    tail: Stmt<'a>,
) -> (stmt: Stmt<'a>)
    requires
        old(root).wf(),
        index + rest.len() <= u64::MAX,
        fields_resolvable(*ctx, *rest),
    ensures
        final(root).wf(),
        final(root).env() == old(root).env(),
        final(root).arena == old(root).arena,
        stmt == emit_fields(
            old(root).env(),
            old(root).gen(old(ident_ids)),
            *ctx,
            source,
            *rest,
            index,
            structure,
            tail,
        ).0,
        final(root).gen(final(ident_ids)) == emit_fields(
            old(root).env(),
            old(root).gen(old(ident_ids)),
            *ctx,
            source,
            *rest,
            index,
            structure,
            tail,
        ).1,
    decreases rest,
{
    match rest {
        List::Nil => tail,
        List::Cons(field, more) => {
            let inner = refcount_fields(
                root,
                ident_ids,
                ctx,
                source,
                more,
                index + 1,
                structure,
                tail,
            );
            if field.contains_refcounted() {
                let arena = root.arena;
                let field_val = root.create_symbol(ident_ids, "field_val");
                let mod_unit = root.create_symbol(ident_ids, "mod_field");
                let mod_args = refcount_args(root, ctx, field_val);
                let mod_expr = root.call_specialized_op(ident_ids, ctx, *field, mod_args).unwrap();
                let mod_stmt = Stmt::Let(mod_unit, mod_expr, layout_unit(), arena_alloc(arena, inner));
                Stmt::Let(
                    field_val,
                    source.field_expr(structure, index),
                    *field,
                    arena_alloc(arena, mod_stmt),
                )
            } else {
                inner
            }
        },
    }
}

/// The statement for a record: the walk over its fields, then the end.
/// Under `DecRef` no field is visited, a record having no heap block of its
/// own.
pub open spec fn emit_struct<'a>(
    env: Env<'a>,
    g: Gen<'a>,
    ctx: Context<'a>,
    field_layouts: Fields<'a>,
    structure: Symbol,
) -> (Stmt<'a>, Gen<'a>) {
    let (ret, g1) = emit_return(env, g, ctx.op);
    if ctx.op is DecRef {
        (ret, g1)
    } else {
        emit_fields(
            env,
            g1,
            ctx,
            FieldSource::Record(&field_layouts),
            field_layouts,
            0,
            structure,
            ret,
        )
    }
}

/// Emits the statement that changes the counts of what the record at
/// `structure` holds.
pub fn refcount_struct<'a>(
    root: &mut CodeGenHelp<'a>,
    ident_ids: &mut IdentIds,
    ctx: &Context<'a>,
    field_layouts: &'a Fields<'a>,
    structure: Symbol,
) -> (stmt: Stmt<'a>)
    requires
        old(root).wf(),
        !(ctx.op is DecRef) ==> field_layouts.len() < u64::MAX && fields_resolvable(
            *ctx,
            *field_layouts,
        ),
    ensures
        final(root).wf(),
        final(root).env() == old(root).env(),
        final(root).arena == old(root).arena,
        stmt == emit_struct(
            old(root).env(),
            old(root).gen(old(ident_ids)),
            *ctx,
            *field_layouts,
            structure,
        ).0,
        final(root).gen(final(ident_ids)) == emit_struct(
            old(root).env(),
            old(root).gen(old(ident_ids)),
            *ctx,
            *field_layouts,
            structure,
        ).1,
{
    let ret = rc_return_stmt(root, ident_ids, ctx);
    if ctx.op.is_decref() {
        ret
    } else {
        refcount_fields(
            root,
            ident_ids,
            ctx,
            FieldSource::Record(field_layouts),
            field_layouts,
            0,
            structure,
            ret,
        )
    }
}

/// The loop over the elements of a list of `length` elements stored from
/// `elements` on:
///
/// ```text
/// start     = cast(elements)
/// size      = stack size of an element
/// list_size = length * size
/// end       = start + list_size
/// join elems_loop(addr):
///     is_end = addr >= end
///     switch is_end:
///         1:       following
///         default: box = cast(addr); elem = box.0
///                  mod_elem_unit = helper(element layout, op)(elem [, amount])
///                  next_addr = addr + size
///                  jump elems_loop(next_addr)
/// in jump elems_loop(start)
/// ```
///
/// The helper is called once for each element, in storage order, and
/// `following` runs after the last.
pub open spec fn emit_list_elems<'a>(
    env: Env<'a>,
    g: Gen<'a>,
    ctx: Context<'a>,
    elem_layout: Layout<'a>,
    ret_layout: Layout<'a>,
    box_union_layout: UnionLayout<'a>,
    length: Symbol,
    elements: Symbol,
    following: Stmt<'a>,
) -> (Stmt<'a>, Gen<'a>) {
    let (start, g1) = mint(env, g, "start");
    let (size, g2) = mint(env, g1, "size");
    let (list_size, g3) = mint(env, g2, "list_size");
    let (end, g4) = mint(env, g3, "end");
    let (elems_loop_sym, g5) = mint(env, g4, "elems_loop");
    let (addr, g6) = mint(env, g5, "addr");
    let (box_ptr, g7) = mint(env, g6, "box");
    let (elem, g8) = mint(env, g7, "elem");
    let (mod_elem_unit, g9) = mint(env, g8, "mod_elem_unit");
    let (call, g10) = specialize(env, g9, ctx, elem_layout, helper_args(ctx.op, elem));
    let (next_addr, g11) = mint(env, g10, "next_addr");
    let (is_end, g12) = mint(env, g11, "is_end");
    let elems_loop = JoinPointId(elems_loop_sym);
    let isize = env.layout_isize;
    let next_addr_stmt = spec_let_lowlevel(
        isize,
        next_addr,
        LowLevel::NumAdd,
        args2(addr, size),
        Stmt::Jump(elems_loop, &args1(next_addr)),
    );
    let elem_stmt = Stmt::Let(
        elem,
        Expr::UnionAtIndex {
            structure: box_ptr,
            tag_id: 0,
            union_layout: box_union_layout,
            index: 0,
        },
        elem_layout,
        &Stmt::Let(mod_elem_unit, call.unwrap(), spec_layout_unit(), &next_addr_stmt),
    );
    let box_stmt = spec_let_lowlevel(
        Layout::Union(box_union_layout),
        box_ptr,
        LowLevel::PtrCast,
        args1(addr),
        elem_stmt,
    );
    let if_end_of_list = Stmt::Switch {
        cond_symbol: is_end,
        cond_layout: spec_layout_bool(),
        branches: &List::Cons((1u64, BranchInfo::Unknown, following), &List::Nil),
        default_branch: (BranchInfo::Unknown, &box_stmt),
        ret_layout,
    };
    let joinpoint_loop = Stmt::Join {
        id: elems_loop,
        parameters: &List::Cons(Param { symbol: addr, borrow: false, layout: isize }, &List::Nil),
        body: &spec_let_lowlevel(
            spec_layout_bool(),
            is_end,
            LowLevel::NumGte,
            args2(addr, end),
            if_end_of_list,
        ),
        remainder: &Stmt::Jump(elems_loop, &args1(start)),
    };
    let size_stmt = Stmt::Let(
        size,
        Expr::Literal(Literal::Int(elem_layout.spec_stack_size(env.ptr_size) as i128)),
        isize,
        &spec_let_lowlevel(
            isize,
            list_size,
            LowLevel::NumMul,
            args2(length, size),
            spec_let_lowlevel(isize, end, LowLevel::NumAdd, args2(start, list_size), joinpoint_loop),
        ),
    );
    (spec_let_lowlevel(isize, start, LowLevel::PtrCast, args1(elements), size_stmt), g12)
}

/// Emits the loop that calls the helper of the element layout on each
/// element of a list, and continues with `following` after the last.
pub fn refcount_list_elems<'a>(
    root: &mut CodeGenHelp<'a>,
    ident_ids: &mut IdentIds,
    ctx: &Context<'a>,
    elem_layout: &Layout<'a>,
    ret_layout: Layout<'a>,
    box_union_layout: UnionLayout<'a>,
    length: Symbol,
    elements: Symbol,
    following: Stmt<'a>,
) -> (stmt: Stmt<'a>)
    requires
        old(root).wf(),
        elem_layout.spec_stack_size(old(root).ptr_size) <= u32::MAX,
        resolve_layout(*ctx, *elem_layout) is Some,
    ensures
        final(root).wf(),
        final(root).env() == old(root).env(),
        final(root).arena == old(root).arena,
        stmt == emit_list_elems(
            old(root).env(),
            old(root).gen(old(ident_ids)),
            *ctx,
            *elem_layout,
            ret_layout,
            box_union_layout,
            length,
            elements,
            following,
        ).0,
        final(root).gen(final(ident_ids)) == emit_list_elems(
            old(root).env(),
            old(root).gen(old(ident_ids)),
            *ctx,
            *elem_layout,
            ret_layout,
            box_union_layout,
            length,
            elements,
            following,
        ).1,
{
    let arena = root.arena;
    let layout_isize = root.layout_isize;
    let elem_size = elem_layout.stack_size(root.ptr_size);

    let start = root.create_symbol(ident_ids, "start");
    let size = root.create_symbol(ident_ids, "size");
    let list_size = root.create_symbol(ident_ids, "list_size");
    let end = root.create_symbol(ident_ids, "end");
    let elems_loop = JoinPointId(root.create_symbol(ident_ids, "elems_loop"));
    let addr = root.create_symbol(ident_ids, "addr");
    let box_ptr = root.create_symbol(ident_ids, "box");
    let elem = root.create_symbol(ident_ids, "elem");
    let mod_elem_unit = root.create_symbol(ident_ids, "mod_elem_unit");
    let mod_elem_args = refcount_args(root, ctx, elem);
    let mod_elem_expr = root.call_specialized_op(
        ident_ids,
        ctx,
        *elem_layout,
        mod_elem_args,
    ).unwrap();
    let next_addr = root.create_symbol(ident_ids, "next_addr");
    let is_end = root.create_symbol(ident_ids, "is_end");

    let jump_next = Stmt::Jump(elems_loop, alloc_args1(arena, next_addr));
    let next_addr_stmt = let_lowlevel(
        layout_isize,
        next_addr,
        LowLevel::NumAdd,
        alloc_args2(arena, addr, size),
        arena_alloc(arena, jump_next),
    );
    let mod_elem_stmt = Stmt::Let(
        mod_elem_unit,
        mod_elem_expr,
        layout_unit(),
        arena_alloc(arena, next_addr_stmt),
    );
    let elem_stmt = Stmt::Let(
        elem,
        Expr::UnionAtIndex {
            structure: box_ptr,
            tag_id: 0,
            union_layout: box_union_layout,
            index: 0,
        },
        *elem_layout,
        arena_alloc(arena, mod_elem_stmt),
    );
    let box_stmt = let_lowlevel(
        Layout::Union(box_union_layout),
        box_ptr,
        LowLevel::PtrCast,
        alloc_args1(arena, addr),
        arena_alloc(arena, elem_stmt),
    );
    let if_end_of_list = Stmt::Switch {
        cond_symbol: is_end,
        cond_layout: layout_bool(),
        branches: arena_alloc(
            arena,
            List::Cons((1u64, BranchInfo::Unknown, following), arena_alloc(arena, List::Nil)),
        ),
        default_branch: (BranchInfo::Unknown, arena_alloc(arena, box_stmt)),
        ret_layout,
    };
    let is_end_stmt = let_lowlevel(
        layout_bool(),
        is_end,
        LowLevel::NumGte,
        alloc_args2(arena, addr, end),
        arena_alloc(arena, if_end_of_list),
    );
    let param_addr = Param { symbol: addr, borrow: false, layout: layout_isize };
    let joinpoint_loop = Stmt::Join {
        id: elems_loop,
        parameters: arena_alloc(arena, List::Cons(param_addr, arena_alloc(arena, List::Nil))),
        body: arena_alloc(arena, is_end_stmt),
        remainder: arena_alloc(arena, Stmt::Jump(elems_loop, alloc_args1(arena, start))),
    };
    let end_stmt = let_lowlevel(
        layout_isize,
        end,
        LowLevel::NumAdd,
        alloc_args2(arena, start, list_size),
        arena_alloc(arena, joinpoint_loop),
    );
    let list_size_stmt = let_lowlevel(
        layout_isize,
        list_size,
        LowLevel::NumMul,
        alloc_args2(arena, length, size),
        arena_alloc(arena, end_stmt),
    );
    let size_stmt = Stmt::Let(
        size,
        Expr::Literal(Literal::Int(elem_size as i128)),
        layout_isize,
        arena_alloc(arena, list_size_stmt),
    );
    let_lowlevel(
        layout_isize,
        start,
        LowLevel::PtrCast,
        alloc_args1(arena, elements),
        arena_alloc(arena, size_stmt),
    )
}

/// The layout of a pointer to one element of layout `elem_layout`.
pub open spec fn box_union<'a>(elem_layout: Layout<'a>) -> UnionLayout<'a> {
    UnionLayout::NonNullableUnwrapped(&List::Cons(elem_layout, &List::Nil))
}

/// Whether the elements of a list are visited: they are themselves
/// counted heap blocks, and the operation is not `DecRef`.
pub open spec fn walks_elements<'a>(op: HelperOp, elem_layout: Layout<'a>) -> bool {
    elem_layout.spec_is_refcounted() && !(op is DecRef)
}

/// The statement for the list at `structure`:
///
/// ```text
/// len      = ListLen(structure)
/// zero     = 0
/// is_empty = len == zero
/// switch is_empty:
///     1:       end
///     default: elements = structure.0
///              <loop over the elements, where they are visited>
///              <counter of elements, no mask>; end
/// ```
///
/// An empty list has no heap block; its branch touches no counter. The
/// alignment passed on a decrement is the allocation alignment of
/// `layout`.
pub open spec fn emit_list<'a>(
    env: Env<'a>,
    g: Gen<'a>,
    ctx: Context<'a>,
    layout: Layout<'a>,
    elem_layout: Layout<'a>,
    structure: Symbol,
) -> (Stmt<'a>, Gen<'a>) {
    let box_union_layout = box_union(elem_layout);
    let box_layout = Layout::Union(box_union_layout);
    let (len, g1) = mint(env, g, "len");
    let (zero, g2) = mint(env, g1, "zero");
    let (is_empty, g3) = mint(env, g2, "is_empty");
    let (elements, g4) = mint(env, g3, "elements");
    let (rc_ptr, g5) = mint(env, g4, "rc_ptr");
    let alignment = layout.spec_allocation_alignment_bytes(env.ptr_size);
    let (ret, g6) = emit_return(env, g5, ctx.op);
    let (outer, g7) = emit_outer(env, g6, ctx.op, elements, rc_ptr, false, alignment, ret);
    let (body, g8) = if walks_elements(ctx.op, elem_layout) {
        emit_list_elems(
            env,
            g7,
            ctx,
            elem_layout,
            spec_layout_unit(),
            box_union_layout,
            len,
            elements,
            outer,
        )
    } else {
        (outer, g7)
    };
    let (empty, g9) = emit_return(env, g8, ctx.op);
    let modify_list_and_elems = Stmt::Let(
        elements,
        Expr::StructAtIndex {
            index: 0,
            field_layouts: &record_layouts(env, box_layout),
            structure,
        },
        box_layout,
        &body,
    );
    let if_stmt = Stmt::Switch {
        cond_symbol: is_empty,
        cond_layout: spec_layout_bool(),
        branches: &List::Cons((1u64, BranchInfo::Unknown, empty), &List::Nil),
        default_branch: (BranchInfo::Unknown, &modify_list_and_elems),
        ret_layout: spec_layout_unit(),
    };
    (
        spec_let_lowlevel(
            env.layout_isize,
            len,
            LowLevel::ListLen,
            args1(structure),
            Stmt::Let(
                zero,
                Expr::Literal(Literal::Int(0)),
                env.layout_isize,
                &spec_let_lowlevel(
                    spec_layout_bool(),
                    is_empty,
                    LowLevel::Eq,
                    args2(len, zero),
                    if_stmt,
                ),
            ),
        ),
        g9,
    )
}

/// Emits the statement that changes the count of the list at `structure`
/// and, where they are visited, of its elements before it.
pub fn refcount_list<'a>(
    root: &mut CodeGenHelp<'a>,
    ident_ids: &mut IdentIds,
    ctx: &Context<'a>,
    layout: &Layout<'a>,
    elem_layout: &'a Layout<'a>,
    structure: Symbol,
) -> (stmt: Stmt<'a>)
    requires
        old(root).wf(),
        walks_elements(ctx.op, *elem_layout) ==> elem_layout.spec_stack_size(old(root).ptr_size)
            <= u32::MAX && resolve_layout(*ctx, *elem_layout) is Some,
    ensures
        final(root).wf(),
        final(root).env() == old(root).env(),
        final(root).arena == old(root).arena,
        stmt == emit_list(
            old(root).env(),
            old(root).gen(old(ident_ids)),
            *ctx,
            *layout,
            *elem_layout,
            structure,
        ).0,
        final(root).gen(final(ident_ids)) == emit_list(
            old(root).env(),
            old(root).gen(old(ident_ids)),
            *ctx,
            *layout,
            *elem_layout,
            structure,
        ).1,
{
    let arena = root.arena;
    let layout_isize = root.layout_isize;
    let nil = arena_alloc(arena, List::Nil);
    let box_union_layout = UnionLayout::NonNullableUnwrapped(
        arena_alloc(arena, List::Cons(*elem_layout, nil)),
    );
    let box_layout = Layout::Union(box_union_layout);

    let len = root.create_symbol(ident_ids, "len");
    let zero = root.create_symbol(ident_ids, "zero");
    let is_empty = root.create_symbol(ident_ids, "is_empty");
    let elements = root.create_symbol(ident_ids, "elements");
    let rc_ptr = root.create_symbol(ident_ids, "rc_ptr");
    let alignment = layout.allocation_alignment_bytes(root.ptr_size);

    let ret_stmt = rc_return_stmt(root, ident_ids, ctx);
    let modify_list = modify_refcount(
        root,
        ident_ids,
        ctx,
        rc_ptr,
        alignment,
        arena_alloc(arena, ret_stmt),
    );
    let outer = rc_ptr_from_data_ptr(
        root,
        ident_ids,
        elements,
        rc_ptr,
        false,
        arena_alloc(arena, modify_list),
    );
    let body = if elem_layout.is_refcounted() && !ctx.op.is_decref() {
        refcount_list_elems(
            root,
            ident_ids,
            ctx,
            elem_layout,
            layout_unit(),
            box_union_layout,
            len,
            elements,
            outer,
        )
    } else {
        outer
    };
    let empty_stmt = rc_return_stmt(root, ident_ids, ctx);

    let modify_list_and_elems = Stmt::Let(
        elements,
        Expr::StructAtIndex {
            index: 0,
            field_layouts: alloc_record_layouts(root, box_layout),
            structure,
        },
        box_layout,
        arena_alloc(arena, body),
    );
    let if_stmt = Stmt::Switch {
        cond_symbol: is_empty,
        cond_layout: layout_bool(),
        branches: arena_alloc(
            arena,
            List::Cons((1u64, BranchInfo::Unknown, empty_stmt), arena_alloc(arena, List::Nil)),
        ),
        default_branch: (BranchInfo::Unknown, arena_alloc(arena, modify_list_and_elems)),
        ret_layout: layout_unit(),
    };
    let is_empty_stmt = let_lowlevel(
        layout_bool(),
        is_empty,
        LowLevel::Eq,
        alloc_args2(arena, len, zero),
        arena_alloc(arena, if_stmt),
    );
    let zero_stmt = Stmt::Let(
        zero,
        Expr::Literal(Literal::Int(0)),
        layout_isize,
        arena_alloc(arena, is_empty_stmt),
    );
    let_lowlevel(
        layout_isize,
        len,
        LowLevel::ListLen,
        alloc_args1(arena, structure),
        arena_alloc(arena, zero_stmt),
    )
}

/// The tag id of the constructor that would get `next_id` if no constructor
/// were the null pointer: the null id is passed over.
pub open spec fn skip_null(next_id: u16, null_id: Option<u16>) -> u16 {
    if null_id == Some(next_id) {
        (next_id + 1) as u16
    } else {
        next_id
    }
}

/// 1 while the null id is still to be passed over, from `next_id` on.
pub open spec fn null_pending(null_id: Option<u16>, next_id: u16) -> nat {
    match null_id {
        Some(id) => if id >= next_id {
            1
        } else {
            0
        },
        None => 0,
    }
}

/// The constructors of a union that are not the null pointer, in tag order.
pub open spec fn union_tags<'a>(union_layout: UnionLayout<'a>) -> Tags<'a> {
    match union_layout {
        UnionLayout::NonRecursive(tags) => *tags,
        UnionLayout::Recursive(tags) => *tags,
        UnionLayout::NonNullableUnwrapped(fields) => List::Cons(fields, &List::Nil),
        UnionLayout::NullableWrapped { other_tags, .. } => *other_tags,
        UnionLayout::NullableUnwrapped { other_fields, .. } => List::Cons(
            other_fields,
            &List::Nil,
        ),
    }
}

/// The field walks of the constructors `rest`, the first of which gets the
/// tag id `skip_null(next_id, null_id)`: the branches of all but the last,
/// each under its tag id, and the walk of the last. Every walk ends in
/// `tail`.
pub open spec fn emit_tag_branches<'a>(
    env: Env<'a>,
    g: Gen<'a>,
    ctx: Context<'a>,
    union_layout: UnionLayout<'a>,
    rest: Tags<'a>,
    next_id: u16,
    null_id: Option<u16>,
    structure: Symbol,
    tail: Stmt<'a>,
) -> (List<'a, Branch<'a>>, Stmt<'a>, Gen<'a>)
    decreases rest,
{
    match rest {
        List::Nil => (List::Nil, tail, g),
        List::Cons(fields, more) => {
            let tag_id = skip_null(next_id, null_id);
            let (walk, g1) = emit_fields(
                env,
                g,
                ctx,
                FieldSource::Constructor(union_layout, tag_id),
                *fields,
                0,
                structure,
                tail,
            );
            if *more is Nil {
                (List::Nil, walk, g1)
            } else {
                let (branches, last, g2) = emit_tag_branches(
                    env,
                    g1,
                    ctx,
                    union_layout,
                    *more,
                    (tag_id + 1) as u16,
                    null_id,
                    structure,
                    tail,
                );
                (List::Cons((tag_id as u64, BranchInfo::Unknown, walk), &branches), last, g2)
            }
        },
    }
}

/// The fields phase of a union: a switch on the tag id with the field walk
/// of each constructor that is not null, the last as the default branch.
/// Where there is no such constructor the phase is `tail` alone.
pub open spec fn emit_union_fields<'a>(
    env: Env<'a>,
    g: Gen<'a>,
    ctx: Context<'a>,
    union_layout: UnionLayout<'a>,
    tags: Tags<'a>,
    null_id: Option<u16>,
    structure: Symbol,
    tag_id_sym: Symbol,
    tail: Stmt<'a>,
) -> (Stmt<'a>, Gen<'a>) {
    if tags is Nil {
        (tail, g)
    } else {
        let (branches, last, g1) = emit_tag_branches(
            env,
            g,
            ctx,
            union_layout,
            tags,
            0,
            null_id,
            structure,
            tail,
        );
        (
            Stmt::Switch {
                cond_symbol: tag_id_sym,
                cond_layout: union_layout.spec_tag_id_layout(),
                branches: &branches,
                default_branch: (BranchInfo::Unknown, &last),
                ret_layout: spec_layout_unit(),
            },
            g1,
        )
    }
}

/// The statement for a union value at `structure` whose constructors other
/// than null are `tags`:
///
/// ```text
/// tag_id = GetTagId(structure)
/// switch tag_id:                      (only with a null id)
///     null id: end
///     default: <heap part>
/// ```
///
/// For a union on the stack there is no counter: the statement after
/// `tag_id` is the fields phase, or under `DecRef` the end. For a heap union
/// the heap part is
///
/// * under `Dec`: the fields phase, each walk followed by the outer phase;
/// * under `Inc`: the outer phase, then the fields phase;
/// * under `DecRef`: the outer phase alone.
///
/// The outer phase masks the pointer exactly when the union keeps its tag id
/// in the pointer, and passes the allocation alignment of the union.
pub open spec fn emit_tag_union_help<'a>(
    env: Env<'a>,
    g: Gen<'a>,
    ctx: Context<'a>,
    union_layout: UnionLayout<'a>,
    tags: Tags<'a>,
    null_id: Option<u16>,
    structure: Symbol,
) -> (Stmt<'a>, Gen<'a>) {
    let tag_id_layout = union_layout.spec_tag_id_layout();
    let (tag_id_sym, g1) = mint(env, g, "tag_id");
    let (ret, g2) = emit_return(env, g1, ctx.op);
    let (inner, g_inner) = if union_layout is NonRecursive {
        if ctx.op is DecRef {
            (ret, g2)
        } else {
            emit_union_fields(env, g2, ctx, union_layout, tags, null_id, structure, tag_id_sym, ret)
        }
    } else {
        let (rc_ptr, g3) = mint(env, g2, "rc_ptr");
        let alignment = union_layout.spec_allocation_alignment_bytes(env.ptr_size);
        let mask = union_layout.spec_stores_tag_id_in_pointer(env.ptr_size);
        let (heap, g_heap) = match ctx.op {
            HelperOp::DecRef(_) => emit_outer(
                env,
                g3,
                ctx.op,
                structure,
                rc_ptr,
                mask,
                alignment,
                ret,
            ),
            HelperOp::Dec => {
                let (outer, g4) = emit_outer(
                    env,
                    g3,
                    ctx.op,
                    structure,
                    rc_ptr,
                    mask,
                    alignment,
                    ret,
                );
                emit_union_fields(
                    env,
                    g4,
                    ctx,
                    union_layout,
                    tags,
                    null_id,
                    structure,
                    tag_id_sym,
                    outer,
                )
            },
            HelperOp::Inc => {
                let (fields, g4) = emit_union_fields(
                    env,
                    g3,
                    ctx,
                    union_layout,
                    tags,
                    null_id,
                    structure,
                    tag_id_sym,
                    ret,
                );
                emit_outer(env, g4, ctx.op, structure, rc_ptr, mask, alignment, fields)
            },
        };
        match null_id {
            Some(id) => {
                let (null_ret, g5) = emit_return(env, g_heap, ctx.op);
                (
                    Stmt::Switch {
                        cond_symbol: tag_id_sym,
                        cond_layout: tag_id_layout,
                        branches: &List::Cons(
                            (id as u64, BranchInfo::Unknown, null_ret),
                            &List::Nil,
                        ),
                        default_branch: (BranchInfo::Unknown, &heap),
                        ret_layout: spec_layout_unit(),
                    },
                    g5,
                )
            },
            None => (heap, g_heap),
        }
    };
    (
        Stmt::Let(
            tag_id_sym,
            Expr::GetTagId { structure, union_layout },
            tag_id_layout,
            &inner,
        ),
        g_inner,
    )
}

/// The context in which the fields of `union_layout` are visited: a heap
/// union becomes the union that a `RecursivePointer` among them refers to.
pub open spec fn enter_union<'a>(ctx: Context<'a>, union_layout: UnionLayout<'a>) -> Context<'a> {
    if union_layout is NonRecursive {
        ctx
    } else {
        Context { recursive_union: Some(union_layout), op: ctx.op }
    }
}

/// The statement for the union value at `structure`.
pub open spec fn emit_tag_union<'a>(
    env: Env<'a>,
    g: Gen<'a>,
    ctx: Context<'a>,
    union_layout: UnionLayout<'a>,
    structure: Symbol,
) -> (Stmt<'a>, Gen<'a>) {
    emit_tag_union_help(
        env,
        g,
        enter_union(ctx, union_layout),
        union_layout,
        union_tags(union_layout),
        union_layout.spec_null_id(),
        structure,
    )
}

/// Inside a heap union a helper can be asked for whatever the field.
pub proof fn lemma_fields_resolvable_in_union<'a>(ctx: Context<'a>, fields: Fields<'a>)
    requires
        ctx.recursive_union is Some,
    ensures
        fields_resolvable(ctx, fields),
    decreases fields,
{
    match fields {
        List::Nil => {},
        List::Cons(_, tail) => {
            lemma_fields_resolvable_in_union(ctx, *tail);
        },
    }
}

/// Inside a heap union a helper can be asked for whatever the constructor
/// and the field.
pub proof fn lemma_tags_resolvable_in_union<'a>(ctx: Context<'a>, tags: Tags<'a>)
    requires
        ctx.recursive_union is Some,
    ensures
        tags_resolvable(ctx, tags),
    decreases tags,
{
    match tags {
        List::Nil => {},
        List::Cons(head, tail) => {
            lemma_fields_resolvable_in_union(ctx, *head);
            lemma_tags_resolvable_in_union(ctx, *tail);
        },
    }
}

/// Emits the field walk of one constructor of a union, ending in
/// `following`.
pub fn refcount_tag_fields<'a>(
    root: &mut CodeGenHelp<'a>,
    ident_ids: &mut IdentIds,
    ctx: &Context<'a>,
    union_layout: UnionLayout<'a>,
    field_layouts: &Fields<'a>,
    structure: Symbol,
    tag_id: u16,
    following: Stmt<'a>,
) -> (stmt: Stmt<'a>)
    requires
        old(root).wf(),
        field_layouts.len() < u64::MAX,
        fields_resolvable(*ctx, *field_layouts),
    ensures
        final(root).wf(),
        final(root).env() == old(root).env(),
        final(root).arena == old(root).arena,
        stmt == emit_fields(
            old(root).env(),
            old(root).gen(old(ident_ids)),
            *ctx,
            FieldSource::Constructor(union_layout, tag_id),
            *field_layouts,
            0,
            structure,
            following,
        ).0,
        final(root).gen(final(ident_ids)) == emit_fields(
            old(root).env(),
            old(root).gen(old(ident_ids)),
            *ctx,
            FieldSource::Constructor(union_layout, tag_id),
            *field_layouts,
            0,
            structure,
            following,
        ).1,
{
    refcount_fields(
        root,
        ident_ids,
        ctx,
        FieldSource::Constructor(union_layout, tag_id),
        field_layouts,
        0,
        structure,
        following,
    )
}

/// Emits the field walks of the constructors `rest`.
fn refcount_tag_branches<'a>(
    root: &mut CodeGenHelp<'a>,
    ident_ids: &mut IdentIds,
    ctx: &Context<'a>,
    union_layout: UnionLayout<'a>,
    rest: &Tags<'a>,
    next_id: u16,
    null_id: Option<u16>,
    structure: Symbol,
    tail: Stmt<'a>,
) -> (r: (&'a List<'a, Branch<'a>>, Stmt<'a>))
    requires
        old(root).wf(),
        next_id + rest.len() + null_pending(null_id, next_id) <= MAX_TAGS,
        tags_indexable(*rest),
        tags_resolvable(*ctx, *rest),
    ensures
        final(root).wf(),
        final(root).env() == old(root).env(),
        final(root).arena == old(root).arena,
        *r.0 == emit_tag_branches(
            old(root).env(),
            old(root).gen(old(ident_ids)),
            *ctx,
            union_layout,
            *rest,
            next_id,
            null_id,
            structure,
            tail,
        ).0,
        r.1 == emit_tag_branches(
            old(root).env(),
            old(root).gen(old(ident_ids)),
            *ctx,
            union_layout,
            *rest,
            next_id,
            null_id,
            structure,
            tail,
        ).1,
        final(root).gen(final(ident_ids)) == emit_tag_branches(
            old(root).env(),
            old(root).gen(old(ident_ids)),
            *ctx,
            union_layout,
            *rest,
            next_id,
            null_id,
            structure,
            tail,
        ).2,
    decreases rest,
{
    let arena = root.arena;
    match rest {
        List::Nil => (arena_alloc(arena, List::Nil), tail),
        List::Cons(fields, more) => {
            let tag_id = match null_id {
                Some(id) if id == next_id => next_id + 1,
                _ => next_id,
            };
            let walk = refcount_tag_fields(
                root,
                ident_ids,
                ctx,
                union_layout,
                fields,
                structure,
                tag_id,
                tail,
            );
            if more.is_empty() {
                (arena_alloc(arena, List::Nil), walk)
            } else {
                let (branches, last) = refcount_tag_branches(
                    root,
                    ident_ids,
                    ctx,
                    union_layout,
                    more,
                    tag_id + 1,
                    null_id,
                    structure,
                    tail,
                );
                (
                    arena_alloc(
                        arena,
                        List::Cons((tag_id as u64, BranchInfo::Unknown, walk), branches),
                    ),
                    last,
                )
            }
        },
    }
}

/// Emits the fields phase of a union.
fn refcount_union_fields<'a>(
    root: &mut CodeGenHelp<'a>,
    ident_ids: &mut IdentIds,
    ctx: &Context<'a>,
    union_layout: UnionLayout<'a>,
    tags: &Tags<'a>,
    null_id: Option<u16>,
    structure: Symbol,
    tag_id_sym: Symbol,
    tail: Stmt<'a>,
) -> (stmt: Stmt<'a>)
    requires
        old(root).wf(),
        union_layout.tag_count() <= MAX_TAGS,
        tags.len() + null_pending(null_id, 0) <= MAX_TAGS,
        tags_indexable(*tags),
        tags_resolvable(*ctx, *tags),
    ensures
        final(root).wf(),
        final(root).env() == old(root).env(),
        final(root).arena == old(root).arena,
        stmt == emit_union_fields(
            old(root).env(),
            old(root).gen(old(ident_ids)),
            *ctx,
            union_layout,
            *tags,
            null_id,
            structure,
            tag_id_sym,
            tail,
        ).0,
        final(root).gen(final(ident_ids)) == emit_union_fields(
            old(root).env(),
            old(root).gen(old(ident_ids)),
            *ctx,
            union_layout,
            *tags,
            null_id,
            structure,
            tag_id_sym,
            tail,
        ).1,
{
    if tags.is_empty() {
        tail
    } else {
        let arena = root.arena;
        let (branches, last) = refcount_tag_branches(
            root,
            ident_ids,
            ctx,
            union_layout,
            tags,
            0,
            null_id,
            structure,
            tail,
        );
        Stmt::Switch {
            cond_symbol: tag_id_sym,
            cond_layout: union_layout.tag_id_layout(),
            branches,
            default_branch: (BranchInfo::Unknown, arena_alloc(arena, last)),
            ret_layout: layout_unit(),
        }
    }
}

/// Emits the statement for a union value at `structure` whose constructors
/// other than null are `tag_layouts`.
pub fn refcount_tag_union_help<'a>(
    root: &mut CodeGenHelp<'a>,
    ident_ids: &mut IdentIds,
    ctx: &Context<'a>,
    union_layout: UnionLayout<'a>,
    tag_layouts: &Tags<'a>,
    null_id: Option<u16>,
    structure: Symbol,
) -> (stmt: Stmt<'a>)
    requires
        old(root).wf(),
        union_layout.tag_count() <= MAX_TAGS,
        !(ctx.op is DecRef) ==> {
            &&& tag_layouts.len() + null_pending(null_id, 0) <= MAX_TAGS
            &&& tags_indexable(*tag_layouts)
            &&& tags_resolvable(*ctx, *tag_layouts)
        },
    ensures
        final(root).wf(),
        final(root).env() == old(root).env(),
        final(root).arena == old(root).arena,
        stmt == emit_tag_union_help(
            old(root).env(),
            old(root).gen(old(ident_ids)),
            *ctx,
            union_layout,
            *tag_layouts,
            null_id,
            structure,
        ).0,
        final(root).gen(final(ident_ids)) == emit_tag_union_help(
            old(root).env(),
            old(root).gen(old(ident_ids)),
            *ctx,
            union_layout,
            *tag_layouts,
            null_id,
            structure,
        ).1,
{
    let arena = root.arena;
    let tag_id_layout = union_layout.tag_id_layout();
    let tag_id_sym = root.create_symbol(ident_ids, "tag_id");
    let ret = rc_return_stmt(root, ident_ids, ctx);

    let rc_structure_stmt = if union_layout.is_non_recursive() {
        if ctx.op.is_decref() {
            ret
        } else {
            refcount_union_fields(
                root,
                ident_ids,
                ctx,
                union_layout,
                tag_layouts,
                null_id,
                structure,
                tag_id_sym,
                ret,
            )
        }
    } else {
        let rc_ptr = root.create_symbol(ident_ids, "rc_ptr");
        let alignment = union_layout.allocation_alignment_bytes(root.ptr_size);
        let mask = union_layout.stores_tag_id_in_pointer(root.ptr_size);
        let heap = match ctx.op {
            HelperOp::DecRef(_) => {
                let modify = modify_refcount(
                    root,
                    ident_ids,
                    ctx,
                    rc_ptr,
                    alignment,
                    arena_alloc(arena, ret),
                );
                rc_ptr_from_data_ptr(
                    root,
                    ident_ids,
                    structure,
                    rc_ptr,
                    mask,
                    arena_alloc(arena, modify),
                )
            },
            HelperOp::Dec => {
                let modify = modify_refcount(
                    root,
                    ident_ids,
                    ctx,
                    rc_ptr,
                    alignment,
                    arena_alloc(arena, ret),
                );
                let outer = rc_ptr_from_data_ptr(
                    root,
                    ident_ids,
                    structure,
                    rc_ptr,
                    mask,
                    arena_alloc(arena, modify),
                );
                refcount_union_fields(
                    root,
                    ident_ids,
                    ctx,
                    union_layout,
                    tag_layouts,
                    null_id,
                    structure,
                    tag_id_sym,
                    outer,
                )
            },
            HelperOp::Inc => {
                let fields = refcount_union_fields(
                    root,
                    ident_ids,
                    ctx,
                    union_layout,
                    tag_layouts,
                    null_id,
                    structure,
                    tag_id_sym,
                    ret,
                );
                let modify = modify_refcount(
                    root,
                    ident_ids,
                    ctx,
                    rc_ptr,
                    alignment,
                    arena_alloc(arena, fields),
                );
                rc_ptr_from_data_ptr(
                    root,
                    ident_ids,
                    structure,
                    rc_ptr,
                    mask,
                    arena_alloc(arena, modify),
                )
            },
        };
        match null_id {
            Some(id) => {
                let null_ret = rc_return_stmt(root, ident_ids, ctx);
                Stmt::Switch {
                    cond_symbol: tag_id_sym,
                    cond_layout: tag_id_layout,
                    branches: arena_alloc(
                        arena,
                        List::Cons(
                            (id as u64, BranchInfo::Unknown, null_ret),
                            arena_alloc(arena, List::Nil),
                        ),
                    ),
                    default_branch: (BranchInfo::Unknown, arena_alloc(arena, heap)),
                    ret_layout: layout_unit(),
                }
            },
            None => heap,
        }
    };
    Stmt::Let(
        tag_id_sym,
        Expr::GetTagId { structure, union_layout },
        tag_id_layout,
        arena_alloc(arena, rc_structure_stmt),
    )
}

/// Emits the statement that changes the count of the union value at
/// `structure` and of what its fields hold. While the fields of a heap
/// union are visited, `ctx` names that union; it is as before on return.
pub fn refcount_tag_union<'a>(
    root: &mut CodeGenHelp<'a>,
    ident_ids: &mut IdentIds,
    ctx: &mut Context<'a>,
    union_layout: UnionLayout<'a>,
    structure: Symbol,
) -> (stmt: Stmt<'a>)
    requires
        old(root).wf(),
        union_layout.wf(),
        !(old(ctx).op is DecRef) && union_layout is NonRecursive ==> tags_resolvable(
            *old(ctx),
            union_tags(union_layout),
        ),
    ensures
        final(root).wf(),
        final(root).env() == old(root).env(),
        final(root).arena == old(root).arena,
        *final(ctx) == *old(ctx),
        stmt == emit_tag_union(
            old(root).env(),
            old(root).gen(old(ident_ids)),
            *old(ctx),
            union_layout,
            structure,
        ).0,
        final(root).gen(final(ident_ids)) == emit_tag_union(
            old(root).env(),
            old(root).gen(old(ident_ids)),
            *old(ctx),
            union_layout,
            structure,
        ).1,
{
    let arena = root.arena;
    let parent_rec_ptr_layout = ctx.recursive_union;
    if !union_layout.is_non_recursive() {
        ctx.recursive_union = Some(union_layout);
    }
    proof {
        if !(union_layout is NonRecursive) {
            lemma_tags_resolvable_in_union(*ctx, union_tags(union_layout));
        }
    }
    let null_id = union_layout.null_id();
    let body = match union_layout {
        UnionLayout::NonRecursive(tags) => refcount_tag_union_help(
            root,
            ident_ids,
            ctx,
            union_layout,
            tags,
            null_id,
            structure,
        ),
        UnionLayout::Recursive(tags) => refcount_tag_union_help(
            root,
            ident_ids,
            ctx,
            union_layout,
            tags,
            null_id,
            structure,
        ),
        UnionLayout::NonNullableUnwrapped(field_layouts) => {
            let tags = arena_alloc(arena, List::Cons(field_layouts, arena_alloc(arena, List::Nil)));
            proof {
                let none: Tags<'a> = List::Nil;
                assert(none.len() == 0 && tags_indexable(none));
                assert(tags.len() == 1 && tags_indexable(*tags));
            }
            refcount_tag_union_help(root, ident_ids, ctx, union_layout, tags, null_id, structure)
        },
        UnionLayout::NullableWrapped { other_tags, .. } => refcount_tag_union_help(
            root,
            ident_ids,
            ctx,
            union_layout,
            other_tags,
            null_id,
            structure,
        ),
        UnionLayout::NullableUnwrapped { other_fields, .. } => {
            let tags = arena_alloc(arena, List::Cons(other_fields, arena_alloc(arena, List::Nil)));
            proof {
                let none: Tags<'a> = List::Nil;
                assert(none.len() == 0 && tags_indexable(none));
                assert(tags.len() == 1 && tags_indexable(*tags));
            }
            refcount_tag_union_help(root, ident_ids, ctx, union_layout, tags, null_id, structure)
        },
    };
    ctx.recursive_union = parent_rec_ptr_layout;
    body
}

/// Whether the statement for `layout` can be emitted under `ctx`: the
/// layout has a reference-count operation at all, a helper can be asked
/// for each child that is visited, and the numbers that the statement
/// carries fit their types.
///
/// There is none for integers, floats, booleans and decimals, which are not
/// counted; for dictionaries and sets; or for a `RecursivePointer` that
/// stands alone.
pub open spec fn can_dispatch<'a>(env: Env<'a>, ctx: Context<'a>, layout: Layout<'a>) -> bool
    decreases layout,
{
    match layout {
        Layout::Builtin(Builtin::Str) => true,
        Layout::Builtin(Builtin::List(elem)) => walks_elements(ctx.op, *elem) ==> {
            &&& elem.spec_stack_size(env.ptr_size) <= u32::MAX
            &&& resolve_layout(ctx, *elem) is Some
        },
        Layout::Builtin(_) => false,
        Layout::Struct(fields) => !(ctx.op is DecRef) ==> {
            &&& fields.len() < u64::MAX
            &&& fields_resolvable(ctx, *fields)
        },
        Layout::Union(union_layout) => {
            &&& union_layout.wf()
            &&& !(ctx.op is DecRef) && union_layout is NonRecursive ==> tags_resolvable(
                ctx,
                union_tags(union_layout),
            )
        },
        Layout::LambdaSet(set) => can_dispatch(env, ctx, *set.representation),
        Layout::RecursivePointer => false,
    }
}

/// The statement that performs the operation of `ctx` on the value of
/// layout `layout` at `structure`, chosen by the shape of the layout. A
/// closure set is treated as its runtime representation.
pub open spec fn emit_generic<'a>(
    env: Env<'a>,
    g: Gen<'a>,
    ctx: Context<'a>,
    layout: Layout<'a>,
    structure: Symbol,
) -> (Stmt<'a>, Gen<'a>)
    decreases layout,
{
    match layout {
        Layout::Builtin(Builtin::Str) => emit_str(env, g, ctx.op, structure),
        Layout::Builtin(Builtin::List(elem)) => emit_list(env, g, ctx, layout, *elem, structure),
        Layout::Struct(fields) => emit_struct(env, g, ctx, *fields, structure),
        Layout::Union(union_layout) => emit_tag_union(env, g, ctx, union_layout, structure),
        Layout::LambdaSet(set) => emit_generic(env, g, ctx, *set.representation, structure),
        _ => arbitrary(),
    }
}

/// Emits the statement that performs the operation of `ctx` on the value at
/// `structure`: the body of the helper for `(layout, ctx.op)` when
/// `structure` is the first parameter, or under `DecRef` the inlined
/// release of the outermost block.
pub fn refcount_generic<'a>(
    root: &mut CodeGenHelp<'a>,
    ident_ids: &mut IdentIds,
    ctx: &mut Context<'a>,
    layout: Layout<'a>,
    structure: Symbol,
) -> (stmt: Stmt<'a>)
    requires
        old(root).wf(),
        can_dispatch(old(root).env(), *old(ctx), layout),
    ensures
        final(root).wf(),
        final(root).env() == old(root).env(),
        final(root).arena == old(root).arena,
        *final(ctx) == *old(ctx),
        stmt == emit_generic(
            old(root).env(),
            old(root).gen(old(ident_ids)),
            *old(ctx),
            layout,
            structure,
        ).0,
        final(root).gen(final(ident_ids)) == emit_generic(
            old(root).env(),
            old(root).gen(old(ident_ids)),
            *old(ctx),
            layout,
            structure,
        ).1,
    decreases layout,
{
    match layout {
        Layout::Builtin(Builtin::Str) => refcount_str(root, ident_ids, ctx, structure),
        Layout::Builtin(Builtin::List(elem_layout)) => refcount_list(
            root,
            ident_ids,
            ctx,
            &layout,
            elem_layout,
            structure,
        ),
        Layout::Struct(field_layouts) => refcount_struct(
            root,
            ident_ids,
            ctx,
            field_layouts,
            structure,
        ),
        Layout::Union(union_layout) => refcount_tag_union(
            root,
            ident_ids,
            ctx,
            union_layout,
            structure,
        ),
        Layout::LambdaSet(lambda_set) => {
            let runtime_layout = lambda_set.runtime_representation();
            refcount_generic(root, ident_ids, ctx, runtime_layout, structure)
        },
        _ => vstd::pervasive::unreached(),
    }
}

fn check_fields_resolvable<'a>(ctx: &Context<'a>, fields: &Fields<'a>) -> (b: bool)
    ensures
        b == fields_resolvable(*ctx, *fields),
    decreases fields,
{
    match fields {
        List::Nil => true,
        List::Cons(head, tail) => {
            let needs_union = match head {
                Layout::RecursivePointer => true,
                _ => false,
            };
            (!head.contains_refcounted() || !needs_union || ctx.recursive_union.is_some())
                && check_fields_resolvable(ctx, tail)
        },
    }
}

fn check_tags_resolvable<'a>(ctx: &Context<'a>, tags: &Tags<'a>) -> (b: bool)
    ensures
        b == tags_resolvable(*ctx, *tags),
    decreases tags,
{
    match tags {
        List::Nil => true,
        List::Cons(head, tail) => check_fields_resolvable(ctx, head) && check_tags_resolvable(
            ctx,
            tail,
        ),
    }
}

/// Decides whether the statement for `layout` can be emitted under `ctx`.
pub fn check_can_dispatch<'a>(root: &CodeGenHelp<'a>, ctx: &Context<'a>, layout: &Layout<'a>) -> (b:
    bool)
    ensures
        b == can_dispatch(root.env(), *ctx, *layout),
    decreases layout,
{
    match layout {
        Layout::Builtin(Builtin::Str) => true,
        Layout::Builtin(Builtin::List(elem)) => {
            if elem.is_refcounted() && !ctx.op.is_decref() {
                let resolved = match elem {
                    Layout::RecursivePointer => ctx.recursive_union.is_some(),
                    _ => true,
                };
                elem.checked_stack_size(root.ptr_size).is_some() && resolved
            } else {
                true
            }
        },
        Layout::Builtin(_) => false,
        Layout::Struct(fields) => ctx.op.is_decref() || (fields.len_capped(u64::MAX) < u64::MAX
            && check_fields_resolvable(ctx, fields)),
        Layout::Union(union_layout) => union_layout.check_wf() && match union_layout {
            UnionLayout::NonRecursive(tags) => ctx.op.is_decref() || check_tags_resolvable(
                ctx,
                tags,
            ),
            _ => true,
        },
        Layout::LambdaSet(set) => check_can_dispatch(root, ctx, set.representation),
        Layout::RecursivePointer => false,
    }
}

/// Emits the statement that performs the operation of `ctx` on the value at
/// `structure` where that can be done, and nothing otherwise: the answer is
/// `None`, and nothing has changed, exactly when the layout has no
/// reference-count operation, a helper cannot be asked for one of its
/// children, or a number of the statement does not fit.
pub fn try_refcount_generic<'a>(
    root: &mut CodeGenHelp<'a>,
    ident_ids: &mut IdentIds,
    ctx: &mut Context<'a>,
    layout: Layout<'a>,
    structure: Symbol,
) -> (r: Option<Stmt<'a>>)
    requires
        old(root).wf(),
    ensures
        final(root).wf(),
        final(root).env() == old(root).env(),
        *final(ctx) == *old(ctx),
        r is Some <==> can_dispatch(old(root).env(), *old(ctx), layout),
        r is None ==> final(root).gen(final(ident_ids)) == old(root).gen(old(ident_ids)),
        r matches Some(stmt) ==> stmt == emit_generic(
            old(root).env(),
            old(root).gen(old(ident_ids)),
            *old(ctx),
            layout,
            structure,
        ).0 && final(root).gen(final(ident_ids)) == emit_generic(
            old(root).env(),
            old(root).gen(old(ident_ids)),
            *old(ctx),
            layout,
            structure,
        ).1,
{
    if check_can_dispatch(root, ctx, &layout) {
        Some(refcount_generic(root, ident_ids, ctx, layout, structure))
    } else {
        None
    }
}

/// Whether reference counting is implemented for every field of `fields`.
pub open spec fn fields_rc_implemented(fields: Fields, enclosed: bool) -> bool
    decreases fields,
{
    match fields {
        List::Nil => true,
        List::Cons(head, tail) => rc_implemented(head, enclosed) && fields_rc_implemented(
            *tail,
            enclosed,
        ),
    }
}

/// Whether reference counting is implemented for every field of every
/// constructor of `tags`.
pub open spec fn tags_rc_implemented(tags: Tags, enclosed: bool) -> bool
    decreases tags,
{
    match tags {
        List::Nil => true,
        List::Cons(head, tail) => fields_rc_implemented(*head, enclosed) && tags_rc_implemented(
            *tail,
            enclosed,
        ),
    }
}

/// Whether reference counting is implemented for `layout` and all it
/// holds, where `enclosed` says that the layout stands inside a heap union.
/// It is not for a dictionary, for a set, or for a `RecursivePointer` that
/// no heap union encloses, nor for anything that holds one of these.
pub open spec fn rc_implemented(layout: Layout, enclosed: bool) -> bool
    decreases layout,
{
    match layout {
        Layout::Builtin(Builtin::Dict(_, _)) => false,
        Layout::Builtin(Builtin::SetOf(_)) => false,
        Layout::Builtin(Builtin::List(elem)) => rc_implemented(*elem, enclosed),
        Layout::Builtin(_) => true,
        Layout::Struct(fields) => fields_rc_implemented(*fields, enclosed),
        Layout::Union(UnionLayout::NonRecursive(tags)) => tags_rc_implemented(*tags, enclosed),
        Layout::Union(UnionLayout::Recursive(tags)) => tags_rc_implemented(*tags, true),
        Layout::Union(UnionLayout::NonNullableUnwrapped(fields)) => fields_rc_implemented(
            *fields,
            true,
        ),
        Layout::Union(UnionLayout::NullableWrapped { other_tags, .. }) => tags_rc_implemented(
            *other_tags,
            true,
        ),
        Layout::Union(UnionLayout::NullableUnwrapped { other_fields, .. }) => {
            fields_rc_implemented(*other_fields, true)
        },
        Layout::LambdaSet(set) => rc_implemented(*set.representation, enclosed),
        Layout::RecursivePointer => enclosed,
    }
}

fn check_fields_rc_implemented<'a>(fields: &Fields<'a>, enclosed: bool) -> (b: bool)
    ensures
        b == fields_rc_implemented(*fields, enclosed),
    decreases fields,
{
    match fields {
        List::Nil => true,
        List::Cons(head, tail) => check_rc_implemented(head, enclosed)
            && check_fields_rc_implemented(tail, enclosed),
    }
}

fn check_tags_rc_implemented<'a>(tags: &Tags<'a>, enclosed: bool) -> (b: bool)
    ensures
        b == tags_rc_implemented(*tags, enclosed),
    decreases tags,
{
    match tags {
        List::Nil => true,
        List::Cons(head, tail) => check_fields_rc_implemented(head, enclosed)
            && check_tags_rc_implemented(tail, enclosed),
    }
}

fn check_rc_implemented<'a>(layout: &Layout<'a>, enclosed: bool) -> (b: bool)
    ensures
        b == rc_implemented(*layout, enclosed),
    decreases layout,
{
    match layout {
        Layout::Builtin(Builtin::Dict(_, _)) => false,
        Layout::Builtin(Builtin::SetOf(_)) => false,
        Layout::Builtin(Builtin::List(elem)) => check_rc_implemented(elem, enclosed),
        Layout::Builtin(_) => true,
        Layout::Struct(fields) => check_fields_rc_implemented(fields, enclosed),
        Layout::Union(UnionLayout::NonRecursive(tags)) => check_tags_rc_implemented(tags, enclosed),
        Layout::Union(UnionLayout::Recursive(tags)) => check_tags_rc_implemented(tags, true),
        Layout::Union(UnionLayout::NonNullableUnwrapped(fields)) => check_fields_rc_implemented(
            fields,
            true,
        ),
        Layout::Union(UnionLayout::NullableWrapped { other_tags, .. }) => {
            check_tags_rc_implemented(other_tags, true)
        },
        Layout::Union(UnionLayout::NullableUnwrapped { other_fields, .. }) => {
            check_fields_rc_implemented(other_fields, true)
        },
        Layout::LambdaSet(set) => check_rc_implemented(set.representation, enclosed),
        Layout::RecursivePointer => enclosed,
    }
}

/// Whether values of `layout` can be given to the lowering.
pub open spec fn spec_is_rc_implemented_yet(layout: &Layout) -> bool {
    rc_implemented(*layout, false)
}

/// Reports whether the lowering handles `layout`, so that a caller can leave
/// a value uncounted rather than ask for code that cannot be made.
#[verifier::when_used_as_spec(spec_is_rc_implemented_yet)]
pub fn is_rc_implemented_yet(layout: &Layout) -> (b: bool)
    ensures
        b == rc_implemented(*layout, false),
{
    check_rc_implemented(layout, false)
}

/// `ctx` with its operation replaced.
pub open spec fn with_op<'a>(ctx: Context<'a>, op: HelperOp) -> Context<'a> {
    Context { recursive_union: ctx.recursive_union, op }
}

/// `let call_result_empty = helper(layout, Dec)(structure); following`
pub open spec fn emit_dec<'a>(
    env: Env<'a>,
    g: Gen<'a>,
    ctx: Context<'a>,
    layout: Layout<'a>,
    structure: Symbol,
    following: Stmt<'a>,
) -> (Stmt<'a>, Gen<'a>, Context<'a>) {
    let ctx1 = with_op(ctx, HelperOp::Dec);
    let (call_result, g1) = mint(env, g, "call_result_empty");
    let (call, g2) = specialize(env, g1, ctx1, layout, args1(structure));
    (Stmt::Let(call_result, call.unwrap(), spec_layout_unit(), &following), g2, ctx1)
}

/// What a directive on a value of layout `layout` is lowered to, in front
/// of `following`, and the context afterwards:
///
/// * `Inc(v, n)`: `amount = n; _ = helper(layout, Inc)(v, amount)`;
/// * `Dec(v)`: `_ = helper(layout, Dec)(v)`;
/// * `DecRef(v)` on a string: as `Dec(v)`, a string having no children;
/// * `DecRef(v)` on a record: nothing, a record having no heap block;
/// * `DecRef(v)` otherwise: the statement for the layout, inlined as the
///   remainder of the join point that `ctx` names, whose body is
///   `following`.
///
/// The context afterwards has the operation of the helper that was
/// called, where one was.
pub open spec fn emit_directive<'a>(
    env: Env<'a>,
    g: Gen<'a>,
    ctx: Context<'a>,
    layout: Layout<'a>,
    modify: ModifyRc,
    following: Stmt<'a>,
) -> (Stmt<'a>, Gen<'a>, Context<'a>) {
    match modify {
        ModifyRc::Inc(structure, amount) => {
            let ctx1 = with_op(ctx, HelperOp::Inc);
            let (amount_sym, g1) = mint(env, g, "amount");
            let (call_result, g2) = mint(env, g1, "call_result_empty");
            let (call, g3) = specialize(env, g2, ctx1, layout, args2(structure, amount_sym));
            (
                Stmt::Let(
                    amount_sym,
                    Expr::Literal(Literal::Int(amount as i128)),
                    env.layout_isize,
                    &Stmt::Let(call_result, call.unwrap(), spec_layout_unit(), &following),
                ),
                g3,
                ctx1,
            )
        },
        ModifyRc::Dec(structure) => emit_dec(env, g, ctx, layout, structure, following),
        ModifyRc::DecRef(structure) => match layout {
            Layout::Builtin(Builtin::Str) => emit_dec(env, g, ctx, layout, structure, following),
            Layout::Struct(_) => (following, g, ctx),
            _ => {
                let (rc_stmt, g1) = emit_generic(env, g, ctx, layout, structure);
                (
                    Stmt::Join {
                        id: ctx.op->DecRef_0,
                        parameters: &List::Nil,
                        body: &following,
                        remainder: &rc_stmt,
                    },
                    g1,
                    ctx,
                )
            },
        },
    }
}

/// Whether the directive `modify` on a value of layout `layout` can be
/// lowered under `ctx`. A helper is called only for a layout that is
/// counted, and that is not a `RecursivePointer` outside any heap union.
/// The outermost block is released inline only where `ctx` has the join
/// point to leave by and the statement for `layout` can be emitted.
pub open spec fn can_lower<'a>(
    env: Env<'a>,
    ctx: Context<'a>,
    layout: Layout<'a>,
    modify: ModifyRc,
) -> bool {
    match modify {
        ModifyRc::DecRef(_) => match layout {
            Layout::Builtin(Builtin::Str) => true,
            Layout::Struct(_) => true,
            _ => ctx.op is DecRef && can_dispatch(env, ctx, layout),
        },
        _ => !layout.spec_is_primitive() && resolve_layout(ctx, layout) is Some,
    }
}

/// Emits the call of the `Dec` helper of `layout` on `structure`.
fn refcount_dec_stmt<'a>(
    root: &mut CodeGenHelp<'a>,
    ident_ids: &mut IdentIds,
    ctx: &mut Context<'a>,
    layout: Layout<'a>,
    structure: Symbol,
    following: &'a Stmt<'a>,
) -> (stmt: &'a Stmt<'a>)
    requires
        old(root).wf(),
        resolve_layout(*old(ctx), layout) is Some,
    ensures
        final(root).wf(),
        final(root).env() == old(root).env(),
        final(root).arena == old(root).arena,
        *stmt == emit_dec(
            old(root).env(),
            old(root).gen(old(ident_ids)),
            *old(ctx),
            layout,
            structure,
            *following,
        ).0,
        final(root).gen(final(ident_ids)) == emit_dec(
            old(root).env(),
            old(root).gen(old(ident_ids)),
            *old(ctx),
            layout,
            structure,
            *following,
        ).1,
        *final(ctx) == with_op(*old(ctx), HelperOp::Dec),
{
    let arena = root.arena;
    ctx.op = HelperOp::Dec;
    let call_result_empty = root.create_symbol(ident_ids, "call_result_empty");
    let call_expr = root.call_specialized_op(
        ident_ids,
        ctx,
        layout,
        alloc_args1(arena, structure),
    ).unwrap();
    arena_alloc(arena, Stmt::Let(call_result_empty, call_expr, layout_unit(), following))
}

/// Lowers the directive `modify` on a value of layout `layout`: returns the
/// statement that performs it and then continues with `following`.
pub fn refcount_stmt<'a>(
    root: &mut CodeGenHelp<'a>,
    ident_ids: &mut IdentIds,
    ctx: &mut Context<'a>,
    layout: Layout<'a>,
    modify: &ModifyRc,
    following: &'a Stmt<'a>,
) -> (stmt: &'a Stmt<'a>)
    requires
        old(root).wf(),
        can_lower(old(root).env(), *old(ctx), layout, *modify),
    ensures
        final(root).wf(),
        final(root).env() == old(root).env(),
        final(root).arena == old(root).arena,
        *stmt == emit_directive(
            old(root).env(),
            old(root).gen(old(ident_ids)),
            *old(ctx),
            layout,
            *modify,
            *following,
        ).0,
        final(root).gen(final(ident_ids)) == emit_directive(
            old(root).env(),
            old(root).gen(old(ident_ids)),
            *old(ctx),
            layout,
            *modify,
            *following,
        ).1,
        *final(ctx) == emit_directive(
            old(root).env(),
            old(root).gen(old(ident_ids)),
            *old(ctx),
            layout,
            *modify,
            *following,
        ).2,
{
    let arena = root.arena;
    match modify {
        ModifyRc::Inc(structure, amount) => {
            let layout_isize = root.layout_isize;
            ctx.op = HelperOp::Inc;
            let amount_sym = root.create_symbol(ident_ids, "amount");
            let call_result_empty = root.create_symbol(ident_ids, "call_result_empty");
            let call_expr = root.call_specialized_op(
                ident_ids,
                ctx,
                layout,
                alloc_args2(arena, *structure, amount_sym),
            ).unwrap();
            let call_stmt = Stmt::Let(call_result_empty, call_expr, layout_unit(), following);
            arena_alloc(
                arena,
                Stmt::Let(
                    amount_sym,
                    Expr::Literal(Literal::Int(*amount as i128)),
                    layout_isize,
                    arena_alloc(arena, call_stmt),
                ),
            )
        },
        ModifyRc::Dec(structure) => refcount_dec_stmt(
            root,
            ident_ids,
            ctx,
            layout,
            *structure,
            following,
        ),
        ModifyRc::DecRef(structure) => match layout {
            Layout::Builtin(Builtin::Str) => refcount_dec_stmt(
                root,
                ident_ids,
                ctx,
                layout,
                *structure,
                following,
            ),
            Layout::Struct(_) => following,
            _ => match ctx.op {
                HelperOp::DecRef(jp_decref) => {
                    let rc_stmt = refcount_generic(root, ident_ids, ctx, layout, *structure);
                    arena_alloc(
                        arena,
                        Stmt::Join {
                            id: jp_decref,
                            parameters: arena_alloc(arena, List::Nil),
                            body: following,
                            remainder: arena_alloc(arena, rc_stmt),
                        },
                    )
                },
                _ => vstd::pervasive::unreached(),
            },
        },
    }
}

/// Whether a directive on a value of `layout` is expanded at all: reference
/// counting is implemented for the layout, the layout is counted, and its
/// tag ids and field indices fit the IR.
pub open spec fn supported(layout: Layout) -> bool {
    &&& rc_implemented(layout, false)
    &&& !layout.spec_is_primitive()
    &&& layout.wf()
}

/// The operation that a directive stands for. `DecRef` gets a fresh join
/// point to leave by.
pub open spec fn directive_op<'a>(env: Env<'a>, g: Gen<'a>, modify: ModifyRc) -> (HelperOp, Gen<'a>) {
    match modify {
        ModifyRc::Inc(_, _) => (HelperOp::Inc, g),
        ModifyRc::Dec(_) => (HelperOp::Dec, g),
        ModifyRc::DecRef(_) => {
            let (jp_decref, g1) = mint(env, g, "jp_decref");
            (HelperOp::DecRef(JoinPointId(jp_decref)), g1)
        },
    }
}

/// What a directive found in a procedure is replaced by: `following` alone
/// where the layout is not supported, so that the value is left uncounted;
/// else the lowering of the directive, outside any union, in front of
/// `following`.
pub open spec fn emit_expanded<'a>(
    env: Env<'a>,
    g: Gen<'a>,
    layout: Layout<'a>,
    modify: ModifyRc,
    following: Stmt<'a>,
) -> (Stmt<'a>, Gen<'a>) {
    if !supported(layout) {
        (following, g)
    } else {
        let (op, g1) = directive_op(env, g, modify);
        let out = emit_directive(
            env,
            g1,
            Context { recursive_union: None, op },
            layout,
            modify,
            following,
        );
        (out.0, out.1)
    }
}

/// A layout that the capability query accepts outside any union is not, at
/// run time, a bare `RecursivePointer`.
pub proof fn lemma_implemented_not_pointer(layout: Layout)
    requires
        rc_implemented(layout, false),
    ensures
        !(layout.runtime_layout() is RecursivePointer),
    decreases layout,
{
    match layout {
        Layout::LambdaSet(set) => lemma_implemented_not_pointer(*set.representation),
        _ => {},
    }
}

impl<'a> CodeGenHelp<'a> {
    /// Replaces a directive on a value of `layout` by the statements that
    /// perform it, in front of `following`. Where the layout is not
    /// supported the directive is dropped and `following` returned as it
    /// is: the value leaks, and nothing else goes wrong.
    pub fn expand_refcount_stmt(
        &mut self,
        ident_ids: &mut IdentIds,
        layout: Layout<'a>,
        modify: &ModifyRc,
        following: &'a Stmt<'a>,
    ) -> (stmt: &'a Stmt<'a>)
        requires
            old(self).wf(),
        ensures
            final(self).wf(),
            final(self).env() == old(self).env(),
            *stmt == emit_expanded(
                old(self).env(),
                old(self).gen(old(ident_ids)),
                layout,
                *modify,
                *following,
            ).0,
            final(self).gen(final(ident_ids)) == emit_expanded(
                old(self).env(),
                old(self).gen(old(ident_ids)),
                layout,
                *modify,
                *following,
            ).1,
    {
        if !is_rc_implemented_yet(&layout) || layout.is_primitive() || !layout.check_wf() {
            return following;
        }
        let op = match modify {
            ModifyRc::Inc(_, _) => HelperOp::Inc,
            ModifyRc::Dec(_) => HelperOp::Dec,
            ModifyRc::DecRef(_) => {
                let jp_decref = JoinPointId(self.create_symbol(ident_ids, "jp_decref"));
                HelperOp::DecRef(jp_decref)
            },
        };
        let mut ctx = Context { recursive_union: None, op };
        proof {
            lemma_implemented_not_pointer(layout);
            if modify is DecRef {
                law_implemented_can_dispatch(self.env(), ctx, layout);
            }
        }
        refcount_stmt(self, ident_ids, &mut ctx, layout, modify, following)
    }
}

} // verus!
