//! What holds of every statement that the lowering emits.

use crate::arena::List;
use crate::help::Context;
use crate::help::Env;
use crate::help::Gen;
use crate::help::HelperOp;
use crate::help::Specialization;
use crate::help::find_from;
use crate::help::helper_symbol;
use crate::help::keys_unique;
use crate::help::lemma_find_none;
use crate::help::mint;
use crate::help::resolve_layout;
use crate::help::specialize;
use crate::ir::BranchInfo;
use crate::ir::Expr;
use crate::ir::Literal;
use crate::ir::LowLevel;
use crate::ir::Stmt;
use crate::ir::args1;
use crate::ir::lowlevel_call;
use crate::ir::spec_layout_unit;
use crate::layout::Builtin;
use crate::layout::Fields;
use crate::layout::Layout;
use crate::layout::Tags;
use crate::layout::UnionLayout;
use crate::refcount::FieldSource;
use crate::refcount::box_union;
use crate::refcount::can_dispatch;
use crate::refcount::emit_fields;
use crate::refcount::emit_generic;
use crate::refcount::emit_list;
use crate::refcount::emit_list_elems;
use crate::refcount::emit_outer;
use crate::refcount::emit_return;
use crate::refcount::emit_str;
use crate::refcount::emit_struct;
use crate::refcount::emit_tag_branches;
use crate::refcount::emit_tag_union;
use crate::refcount::emit_tag_union_help;
use crate::refcount::emit_union_fields;
use crate::refcount::enter_union;
use crate::refcount::fields_rc_implemented;
use crate::refcount::fields_resolvable;
use crate::refcount::helper_args;
use crate::refcount::lemma_tags_resolvable_in_union;
use crate::refcount::rc_implemented;
use crate::refcount::skip_null;
use crate::refcount::tags_rc_implemented;
use crate::refcount::tags_resolvable;
use crate::refcount::union_tags;
use crate::refcount::walks_elements;
use crate::shape::branches_counter_ops;
use crate::shape::branches_have_join;
use crate::shape::branches_have_jump;
use crate::shape::branches_helper_calls;
use crate::shape::branches_release_last;
use crate::shape::branches_select;
use crate::shape::branches_size;
use crate::shape::branches_use;
use crate::symbol::Symbol;
use vstd::prelude::*;

verus! {

/// The registry `after` is `before` with at most `n` entries added at the
/// end, and has no key twice.
pub open spec fn grows_by(before: Gen, after: Gen, n: nat) -> bool {
    &&& keys_unique(after.specs)
    &&& before.specs.len() <= after.specs.len() <= before.specs.len() + n
    &&& after.specs.subrange(0, before.specs.len() as int) == before.specs
}

/// Number of fields of `fields` that hold something counted.
pub open spec fn fields_visited(fields: Fields) -> nat
    decreases fields,
{
    match fields {
        List::Nil => 0,
        List::Cons(head, tail) => (if head.spec_contains_refcounted() {
            1nat
        } else {
            0nat
        }) + fields_visited(*tail),
    }
}

/// Number of fields, over all constructors of `tags`, that hold something
/// counted.
pub open spec fn tags_visited(tags: Tags) -> nat
    decreases tags,
{
    match tags {
        List::Nil => 0,
        List::Cons(head, tail) => fields_visited(*head) + tags_visited(*tail),
    }
}

/// Number of fields over all constructors of `tags`.
pub open spec fn tags_fields(tags: Tags) -> nat
    decreases tags,
{
    match tags {
        List::Nil => 0,
        List::Cons(head, tail) => head.len() + tags_fields(*tail),
    }
}

/// Number of children of `layout` that its statement visits under `op`:
/// none under `DecRef`; otherwise the fields that hold something counted,
/// and the elements of a list where they are counted themselves.
pub open spec fn visited_children(op: HelperOp, layout: Layout) -> nat
    decreases layout,
{
    if op is DecRef {
        0
    } else {
        match layout {
            Layout::Builtin(Builtin::List(elem)) => if elem.spec_is_refcounted() {
                1
            } else {
                0
            },
            Layout::Struct(fields) => fields_visited(*fields),
            Layout::Union(union_layout) => tags_visited(union_tags(union_layout)),
            Layout::LambdaSet(set) => visited_children(op, *set.representation),
            _ => 0,
        }
    }
}

/// Number of edges from `layout` to its children in the layout tree.
pub open spec fn direct_children(layout: Layout) -> nat
    decreases layout,
{
    match layout {
        Layout::Builtin(Builtin::List(_)) => 1,
        Layout::Struct(fields) => fields.len(),
        Layout::Union(union_layout) => tags_fields(union_tags(union_layout)),
        Layout::LambdaSet(set) => direct_children(*set.representation),
        _ => 0,
    }
}

proof fn lemma_fields_visited_le(fields: Fields)
    ensures
        fields_visited(fields) <= fields.len(),
    decreases fields,
{
    match fields {
        List::Nil => {},
        List::Cons(_, tail) => lemma_fields_visited_le(*tail),
    }
}

proof fn lemma_tags_visited_le(tags: Tags)
    ensures
        tags_visited(tags) <= tags_fields(tags),
    decreases tags,
{
    match tags {
        List::Nil => {},
        List::Cons(head, tail) => {
            lemma_fields_visited_le(*head);
            lemma_tags_visited_le(*tail);
        },
    }
}

/// A statement visits no more children than the layout has.
pub proof fn lemma_visited_le_children(op: HelperOp, layout: Layout)
    ensures
        visited_children(op, layout) <= direct_children(layout),
    decreases layout,
{
    match layout {
        Layout::Struct(fields) => lemma_fields_visited_le(*fields),
        Layout::Union(union_layout) => lemma_tags_visited_le(union_tags(union_layout)),
        Layout::LambdaSet(set) => lemma_visited_le_children(op, *set.representation),
        _ => {},
    }
}

/// Asking for a helper adds at most one entry to the registry, keeps the
/// entries that were there, and keeps the keys apart.
pub proof fn lemma_helper_symbol_grows<'a>(
    env: Env<'a>,
    g: Gen<'a>,
    op: HelperOp,
    layout: Layout<'a>,
)
    requires
        keys_unique(g.specs),
    ensures
        grows_by(g, helper_symbol(env, g, op, layout).1, 1),
        find_from(helper_symbol(env, g, op, layout).1.specs, op, layout, 0) == Some(
            helper_symbol(env, g, op, layout).0,
        ),
        g.idents.len() <= helper_symbol(env, g, op, layout).1.idents.len() <= g.idents.len() + 1,
{
    let after = helper_symbol(env, g, op, layout).1;
    if find_from(g.specs, op, layout, 0) is None {
        lemma_find_none(g.specs, op, layout, 0);
        assert(after.specs.subrange(0, g.specs.len() as int) == g.specs);
        lemma_find_first(after.specs, op, layout, 0, g.specs.len() as int);
    } else {
        assert(after.specs.subrange(0, g.specs.len() as int) == g.specs);
    }
}

/// Where the entry at `at` is the first from `from` on that has the key,
/// the search finds it.
pub proof fn lemma_find_first(
    specs: Seq<Specialization>,
    op: HelperOp,
    layout: Layout,
    from: nat,
    at: int,
)
    requires
        from <= at < specs.len(),
        specs[at].op == op && specs[at].layout == layout,
        forall|i: int| from <= i < at ==> !(specs[i].op == op && specs[i].layout == layout),
    ensures
        find_from(specs, op, layout, from) == Some(specs[at].symbol),
    decreases specs.len() - from,
{
    if from < at {
        lemma_find_first(specs, op, layout, from + 1, at);
    }
}

/// Growth composes.
pub proof fn lemma_grows_trans(a: Gen, b: Gen, c: Gen, m: nat, n: nat)
    requires
        grows_by(a, b, m),
        grows_by(b, c, n),
    ensures
        grows_by(a, c, m + n),
{
    assert(c.specs.subrange(0, a.specs.len() as int) =~= b.specs.subrange(
        0,
        a.specs.len() as int,
    )) by {
        assert forall|i: int| 0 <= i < a.specs.len() implies c.specs[i] == b.specs[i] by {
            assert(c.specs.subrange(0, b.specs.len() as int)[i] == b.specs[i]);
        }
    }
}

/// Minting a symbol leaves the registry as it is.
pub proof fn lemma_grows_refl(a: Gen, b: Gen)
    requires
        keys_unique(a.specs),
        a.specs == b.specs,
    ensures
        grows_by(a, b, 0),
{
    assert(b.specs.subrange(0, a.specs.len() as int) == a.specs);
}

/// The end of emitted code calls nothing. Under `DecRef` it is a jump,
/// otherwise a return.
pub proof fn lemma_return_shape<'a>(env: Env<'a>, g: Gen<'a>, op: HelperOp)
    ensures
        ({
            let out = emit_return(env, g, op);
            &&& out.0.helper_calls() == 0
            &&& out.0.counter_ops() == 0
            &&& forall|called: LowLevel| !out.0.uses(called)
            &&& !out.0.has_join()
            &&& out.0.has_jump() == (op is DecRef)
            &&& out.0.releases_last()
            &&& 1 <= out.0.size() <= 2
            &&& out.1.specs == g.specs
        }),
{
    reveal_with_fuel(Stmt::helper_calls, 3);
    reveal_with_fuel(Stmt::counter_ops, 3);
    reveal_with_fuel(Stmt::uses, 3);
    reveal_with_fuel(Stmt::has_join, 3);
    reveal_with_fuel(Stmt::has_jump, 3);
    reveal_with_fuel(Stmt::releases_last, 3);
    reveal_with_fuel(Stmt::size, 3);
}

/// The outer phase is a straight line of bindings in front of `following`.
/// It calls one counter primitive and no helper, and it uses the bitwise
/// and exactly when the pointer is masked.
pub proof fn lemma_outer_shape<'a>(
    env: Env<'a>,
    g: Gen<'a>,
    op: HelperOp,
    data_ptr: Symbol,
    rc_ptr: Symbol,
    mask_lower_bits: bool,
    alignment: u32,
    following: Stmt<'a>,
)
    ensures
        ({
            let out = emit_outer(env, g, op, data_ptr, rc_ptr, mask_lower_bits, alignment, following);
            &&& out.0.helper_calls() == following.helper_calls()
            &&& out.0.counter_ops() == following.counter_ops() + 1
            &&& out.0.uses(LowLevel::And) == (mask_lower_bits || following.uses(LowLevel::And))
            &&& out.0.uses(LowLevel::RefCountInc) == (op is Inc || following.uses(
                LowLevel::RefCountInc,
            ))
            &&& out.0.uses(LowLevel::RefCountDec) == (!(op is Inc) || following.uses(
                LowLevel::RefCountDec,
            ))
            &&& out.0.has_join() == following.has_join()
            &&& out.0.has_jump() == following.has_jump()
            &&& out.0.releases_last() == {
                &&& !(op is Inc) ==> following.helper_calls() == 0 && !following.has_jump()
                &&& following.releases_last()
            }
            &&& out.0.size() <= following.size() + 8
            &&& out.1.specs == g.specs
        }),
{
    reveal_with_fuel(Stmt::helper_calls, 10);
    reveal_with_fuel(Stmt::counter_ops, 10);
    reveal_with_fuel(Stmt::uses, 10);
    reveal_with_fuel(Stmt::has_join, 10);
    reveal_with_fuel(Stmt::has_jump, 10);
    reveal_with_fuel(Stmt::releases_last, 10);
    reveal_with_fuel(Stmt::size, 10);
}

/// The walk over fields puts, in front of `tail`, one helper call for each
/// field that holds something counted, and nothing else that calls.
pub proof fn lemma_fields_shape<'a>(
    env: Env<'a>,
    g: Gen<'a>,
    ctx: Context<'a>,
    source: FieldSource<'a>,
    rest: Fields<'a>,
    index: u64,
    structure: Symbol,
    tail: Stmt<'a>,
)
    requires
        keys_unique(g.specs),
        fields_resolvable(ctx, rest),
    ensures
        ({
            let out = emit_fields(env, g, ctx, source, rest, index, structure, tail);
            &&& out.0.helper_calls() == fields_visited(rest) + tail.helper_calls()
            &&& out.0.counter_ops() == tail.counter_ops()
            &&& forall|called: LowLevel| out.0.uses(called) == tail.uses(called)
            &&& out.0.has_join() == tail.has_join()
            &&& out.0.has_jump() == tail.has_jump()
            &&& out.0.releases_last() == tail.releases_last()
            &&& out.0.size() == 2 * fields_visited(rest) + tail.size()
            &&& grows_by(g, out.1, fields_visited(rest))
        }),
    decreases rest,
{
    match rest {
        List::Nil => {
            lemma_grows_refl(g, g);
        },
        List::Cons(field, more) => {
            let inner = emit_fields(
                env,
                g,
                ctx,
                source,
                *more,
                (index + 1) as u64,
                structure,
                tail,
            );
            lemma_fields_shape(env, g, ctx, source, *more, (index + 1) as u64, structure, tail);
            if field.spec_contains_refcounted() {
                let (field_val, g2) = mint(env, inner.1, "field_val");
                let (mod_unit, g3) = mint(env, g2, "mod_field");
                let layout = resolve_layout(ctx, field).unwrap();
                lemma_grows_refl(inner.1, g3);
                lemma_helper_symbol_grows(env, g3, ctx.op, layout);
                let out = emit_fields(env, g, ctx, source, rest, index, structure, tail);
                lemma_grows_trans(inner.1, g3, out.1, 0, 1);
                lemma_grows_trans(g, inner.1, out.1, fields_visited(*more), 1);
                reveal_with_fuel(Stmt::helper_calls, 3);
                reveal_with_fuel(Stmt::counter_ops, 3);
                reveal_with_fuel(Stmt::uses, 3);
                reveal_with_fuel(Stmt::has_join, 3);
                reveal_with_fuel(Stmt::has_jump, 3);
                reveal_with_fuel(Stmt::releases_last, 3);
                reveal_with_fuel(Stmt::size, 3);
            }
        },
    }
}

/// The field walks of the constructors of a union, taken together, call one
/// helper for each field that holds something counted; apart from that
/// they are what `tail` is.
pub proof fn lemma_tag_branches_shape<'a>(
    env: Env<'a>,
    g: Gen<'a>,
    ctx: Context<'a>,
    union_layout: UnionLayout<'a>,
    rest: Tags<'a>,
    next_id: u16,
    null_id: Option<u16>,
    structure: Symbol,
    tail: Stmt<'a>,
)
    requires
        keys_unique(g.specs),
        tags_resolvable(ctx, rest),
        tail.helper_calls() == 0,
        tail.size() <= 12,
    ensures
        ({
            let out = emit_tag_branches(
                env,
                g,
                ctx,
                union_layout,
                rest,
                next_id,
                null_id,
                structure,
                tail,
            );
            &&& branches_helper_calls(out.0) + out.1.helper_calls() == tags_visited(rest)
            &&& forall|called: LowLevel|
                (branches_use(out.0, called) || out.1.uses(called)) == tail.uses(called)
            &&& (branches_have_join(out.0) || out.1.has_join()) == tail.has_join()
            &&& (branches_have_jump(out.0) || out.1.has_jump()) == tail.has_jump()
            &&& (branches_release_last(out.0) && out.1.releases_last()) == tail.releases_last()
            &&& branches_size(out.0) + out.1.size() <= 2 * tags_visited(rest) + 12 * rest.len() + 12
            &&& grows_by(g, out.2, tags_visited(rest))
        }),
    decreases rest,
{
    match rest {
        List::Nil => {
            lemma_grows_refl(g, g);
        },
        List::Cons(fields, more) => {
            let tag_id = skip_null(next_id, null_id);
            let source = FieldSource::Constructor(union_layout, tag_id);
            let walk = emit_fields(env, g, ctx, source, *fields, 0, structure, tail);
            lemma_fields_shape(env, g, ctx, source, *fields, 0, structure, tail);
            if !(*more is Nil) {
                let out = emit_tag_branches(
                    env,
                    walk.1,
                    ctx,
                    union_layout,
                    *more,
                    (tag_id + 1) as u16,
                    null_id,
                    structure,
                    tail,
                );
                lemma_tag_branches_shape(
                    env,
                    walk.1,
                    ctx,
                    union_layout,
                    *more,
                    (tag_id + 1) as u16,
                    null_id,
                    structure,
                    tail,
                );
                lemma_grows_trans(g, walk.1, out.2, fields_visited(*fields), tags_visited(*more));
            }
        },
    }
}

/// The fields phase of a union calls one helper for each field that holds
/// something counted; apart from that it is what `tail` is.
pub proof fn lemma_union_fields_shape<'a>(
    env: Env<'a>,
    g: Gen<'a>,
    ctx: Context<'a>,
    union_layout: UnionLayout<'a>,
    tags: Tags<'a>,
    null_id: Option<u16>,
    structure: Symbol,
    tag_id_sym: Symbol,
    tail: Stmt<'a>,
)
    requires
        keys_unique(g.specs),
        tags_resolvable(ctx, tags),
        tail.helper_calls() == 0,
        tail.size() <= 12,
    ensures
        ({
            let out = emit_union_fields(
                env,
                g,
                ctx,
                union_layout,
                tags,
                null_id,
                structure,
                tag_id_sym,
                tail,
            );
            &&& out.0.helper_calls() == tags_visited(tags)
            &&& forall|called: LowLevel| out.0.uses(called) == tail.uses(called)
            &&& out.0.has_join() == tail.has_join()
            &&& out.0.has_jump() == tail.has_jump()
            &&& out.0.releases_last() == tail.releases_last()
            &&& out.0.size() <= 2 * tags_visited(tags) + 12 * tags.len() + 13
            &&& grows_by(g, out.1, tags_visited(tags))
        }),
{
    if tags is Nil {
        lemma_grows_refl(g, g);
    } else {
        lemma_tag_branches_shape(env, g, ctx, union_layout, tags, 0, null_id, structure, tail);
    }
}

/// What holds of the heap part of the statement for a union value.
proof fn lemma_union_heap_shape<'a>(
    env: Env<'a>,
    g: Gen<'a>,
    ctx: Context<'a>,
    union_layout: UnionLayout<'a>,
    tags: Tags<'a>,
    null_id: Option<u16>,
    structure: Symbol,
    tag_id_sym: Symbol,
    rc_ptr: Symbol,
    ret: Stmt<'a>,
) -> (out: (Stmt<'a>, Gen<'a>))
    requires
        keys_unique(g.specs),
        !(ctx.op is DecRef) ==> tags_resolvable(ctx, tags),
        ret.helper_calls() == 0,
        !ret.uses(LowLevel::And),
        !ret.has_join(),
        ret.has_jump() == (ctx.op is DecRef),
        ret.releases_last(),
        ret.size() <= 2,
    ensures
        ({
            let alignment = union_layout.spec_allocation_alignment_bytes(env.ptr_size);
            let mask = union_layout.spec_stores_tag_id_in_pointer(env.ptr_size);
            let visited = if ctx.op is DecRef {
                0nat
            } else {
                tags_visited(tags)
            };
            &&& out == match ctx.op {
                HelperOp::DecRef(_) => emit_outer(
                    env,
                    g,
                    ctx.op,
                    structure,
                    rc_ptr,
                    mask,
                    alignment,
                    ret,
                ),
                HelperOp::Dec => {
                    let outer = emit_outer(env, g, ctx.op, structure, rc_ptr, mask, alignment, ret);
                    emit_union_fields(
                        env,
                        outer.1,
                        ctx,
                        union_layout,
                        tags,
                        null_id,
                        structure,
                        tag_id_sym,
                        outer.0,
                    )
                },
                HelperOp::Inc => {
                    let fields = emit_union_fields(
                        env,
                        g,
                        ctx,
                        union_layout,
                        tags,
                        null_id,
                        structure,
                        tag_id_sym,
                        ret,
                    );
                    emit_outer(env, fields.1, ctx.op, structure, rc_ptr, mask, alignment, fields.0)
                },
            }
            &&& out.0.helper_calls() == visited
            &&& out.0.uses(LowLevel::And) == mask
            &&& !out.0.has_join()
            &&& ctx.op is Dec ==> out.0.releases_last()
            &&& out.0.size() <= 2 * visited + 12 * tags.len() + 23
            &&& grows_by(g, out.1, visited)
        }),
{
    let alignment = union_layout.spec_allocation_alignment_bytes(env.ptr_size);
    let mask = union_layout.spec_stores_tag_id_in_pointer(env.ptr_size);
    match ctx.op {
        HelperOp::DecRef(_) => {
            lemma_outer_shape(env, g, ctx.op, structure, rc_ptr, mask, alignment, ret);
            let out = emit_outer(env, g, ctx.op, structure, rc_ptr, mask, alignment, ret);
            lemma_grows_refl(g, out.1);
            out
        },
        HelperOp::Dec => {
            lemma_outer_shape(env, g, ctx.op, structure, rc_ptr, mask, alignment, ret);
            let outer = emit_outer(env, g, ctx.op, structure, rc_ptr, mask, alignment, ret);
            lemma_grows_refl(g, outer.1);
            lemma_union_fields_shape(
                env,
                outer.1,
                ctx,
                union_layout,
                tags,
                null_id,
                structure,
                tag_id_sym,
                outer.0,
            );
            let out = emit_union_fields(
                env,
                outer.1,
                ctx,
                union_layout,
                tags,
                null_id,
                structure,
                tag_id_sym,
                outer.0,
            );
            lemma_grows_trans(g, outer.1, out.1, 0, tags_visited(tags));
            assert(out.0.uses(LowLevel::And) == outer.0.uses(LowLevel::And));
            out
        },
        HelperOp::Inc => {
            lemma_union_fields_shape(
                env,
                g,
                ctx,
                union_layout,
                tags,
                null_id,
                structure,
                tag_id_sym,
                ret,
            );
            let fields = emit_union_fields(
                env,
                g,
                ctx,
                union_layout,
                tags,
                null_id,
                structure,
                tag_id_sym,
                ret,
            );
            assert(fields.0.uses(LowLevel::And) == ret.uses(LowLevel::And));
            lemma_outer_shape(env, fields.1, ctx.op, structure, rc_ptr, mask, alignment, fields.0);
            let out = emit_outer(
                env,
                fields.1,
                ctx.op,
                structure,
                rc_ptr,
                mask,
                alignment,
                fields.0,
            );
            lemma_grows_refl(fields.1, out.1);
            lemma_grows_trans(g, fields.1, out.1, tags_visited(tags), 0);
            out
        },
    }
}

/// What holds of the statement for a union value, whatever the union.
pub proof fn lemma_tag_union_help_shape<'a>(
    env: Env<'a>,
    g: Gen<'a>,
    ctx: Context<'a>,
    union_layout: UnionLayout<'a>,
    tags: Tags<'a>,
    null_id: Option<u16>,
    structure: Symbol,
)
    requires
        keys_unique(g.specs),
        !(ctx.op is DecRef) ==> tags_resolvable(ctx, tags),
    ensures
        ({
            let out = emit_tag_union_help(env, g, ctx, union_layout, tags, null_id, structure);
            let visited = if ctx.op is DecRef {
                0nat
            } else {
                tags_visited(tags)
            };
            &&& out.0.helper_calls() == visited
            &&& out.0.uses(LowLevel::And) == (!(union_layout is NonRecursive)
                && union_layout.spec_stores_tag_id_in_pointer(env.ptr_size))
            &&& !out.0.has_join()
            &&& ctx.op is Dec ==> out.0.releases_last()
            &&& out.0.size() <= 2 * visited + 12 * tags.len() + 30
            &&& grows_by(g, out.1, visited)
        }),
{
    let visited = if ctx.op is DecRef {
        0nat
    } else {
        tags_visited(tags)
    };
    let (tag_id_sym, g1) = mint(env, g, "tag_id");
    let (ret, g2) = emit_return(env, g1, ctx.op);
    lemma_return_shape(env, g1, ctx.op);
    lemma_grows_refl(g, g2);
    assert(!ret.uses(LowLevel::And));
    let inner: (Stmt<'a>, Gen<'a>) = if union_layout is NonRecursive {
        if ctx.op is DecRef {
            (ret, g2)
        } else {
            lemma_union_fields_shape(
                env,
                g2,
                ctx,
                union_layout,
                tags,
                null_id,
                structure,
                tag_id_sym,
                ret,
            );
            let out = emit_union_fields(
                env,
                g2,
                ctx,
                union_layout,
                tags,
                null_id,
                structure,
                tag_id_sym,
                ret,
            );
            lemma_grows_trans(g, g2, out.1, 0, tags_visited(tags));
            assert(out.0.uses(LowLevel::And) == ret.uses(LowLevel::And));
            out
        }
    } else {
        let (rc_ptr, g3) = mint(env, g2, "rc_ptr");
        lemma_grows_refl(g, g3);
        let heap = lemma_union_heap_shape(
            env,
            g3,
            ctx,
            union_layout,
            tags,
            null_id,
            structure,
            tag_id_sym,
            rc_ptr,
            ret,
        );
        lemma_grows_trans(g, g3, heap.1, 0, visited);
        match null_id {
            Some(id) => {
                lemma_return_shape(env, heap.1, ctx.op);
                let null_ret = emit_return(env, heap.1, ctx.op);
                lemma_grows_refl(heap.1, null_ret.1);
                lemma_grows_trans(g, heap.1, null_ret.1, visited, 0);
                assert(!null_ret.0.uses(LowLevel::And));
                let guarded = Stmt::Switch {
                    cond_symbol: tag_id_sym,
                    cond_layout: union_layout.spec_tag_id_layout(),
                    branches: &List::Cons(
                        (id as u64, BranchInfo::Unknown, null_ret.0),
                        &List::Nil,
                    ),
                    default_branch: (BranchInfo::Unknown, &heap.0),
                    ret_layout: spec_layout_unit(),
                };
                reveal_with_fuel(Stmt::helper_calls, 3);
                reveal_with_fuel(Stmt::uses, 3);
                reveal_with_fuel(Stmt::has_join, 3);
                reveal_with_fuel(Stmt::has_jump, 3);
                reveal_with_fuel(Stmt::releases_last, 3);
                reveal_with_fuel(Stmt::size, 3);
                reveal_with_fuel(branches_helper_calls, 3);
                reveal_with_fuel(branches_use, 3);
                reveal_with_fuel(branches_have_join, 3);
                reveal_with_fuel(branches_have_jump, 3);
                reveal_with_fuel(branches_release_last, 3);
                reveal_with_fuel(branches_size, 3);
                assert(guarded.helper_calls() == visited);
                assert(guarded.uses(LowLevel::And) == heap.0.uses(LowLevel::And));
                assert(!guarded.has_join());
                assert(ctx.op is Dec ==> guarded.releases_last());
                assert(guarded.size() <= heap.0.size() + 3);
                (guarded, null_ret.1)
            },
            None => heap,
        }
    };
    let out = emit_tag_union_help(env, g, ctx, union_layout, tags, null_id, structure);
    assert(out.1 == inner.1);
    assert(out.0 == Stmt::Let(
        tag_id_sym,
        Expr::GetTagId { structure, union_layout },
        union_layout.spec_tag_id_layout(),
        &inner.0,
    ));
    assert(inner.0.helper_calls() == visited);
    assert(inner.0.uses(LowLevel::And) == (!(union_layout is NonRecursive)
        && union_layout.spec_stores_tag_id_in_pointer(env.ptr_size)));
}

/// The loop over the elements of a list calls one helper, in its body, and
/// leaves by `following`.
pub proof fn lemma_list_elems_shape<'a>(
    env: Env<'a>,
    g: Gen<'a>,
    ctx: Context<'a>,
    elem_layout: Layout<'a>,
    ret_layout: Layout<'a>,
    box_union_layout: UnionLayout<'a>,
    length: Symbol,
    elements: Symbol,
    following: Stmt<'a>,
)
    requires
        keys_unique(g.specs),
        resolve_layout(ctx, elem_layout) is Some,
    ensures
        ({
            let out = emit_list_elems(
                env,
                g,
                ctx,
                elem_layout,
                ret_layout,
                box_union_layout,
                length,
                elements,
                following,
            );
            &&& out.0.helper_calls() == 1 + following.helper_calls()
            &&& out.0.counter_ops() == following.counter_ops()
            &&& out.0.uses(LowLevel::And) == following.uses(LowLevel::And)
            &&& out.0.has_join()
            &&& out.0.releases_last() == following.releases_last()
            &&& out.0.size() <= following.size() + 14
            &&& grows_by(g, out.1, 1)
        }),
{
    let (start, g1) = mint(env, g, "start");
    let (size, g2) = mint(env, g1, "size");
    let (list_size, g3) = mint(env, g2, "list_size");
    let (end, g4) = mint(env, g3, "end");
    let (elems_loop_sym, g5) = mint(env, g4, "elems_loop");
    let (addr, g6) = mint(env, g5, "addr");
    let (box_ptr, g7) = mint(env, g6, "box");
    let (elem, g8) = mint(env, g7, "elem");
    let (mod_elem_unit, g9) = mint(env, g8, "mod_elem_unit");
    let (call, g10) = specialize(env, g9, ctx, elem_layout, helper_args(ctx.op, elem));
    lemma_grows_refl(g, g9);
    lemma_helper_symbol_grows(env, g9, ctx.op, resolve_layout(ctx, elem_layout).unwrap());
    let out = emit_list_elems(
        env,
        g,
        ctx,
        elem_layout,
        ret_layout,
        box_union_layout,
        length,
        elements,
        following,
    );
    lemma_grows_refl(g10, out.1);
    lemma_grows_trans(g, g9, g10, 0, 1);
    lemma_grows_trans(g, g10, out.1, 1, 0);
    reveal_with_fuel(Stmt::helper_calls, 14);
    reveal_with_fuel(Stmt::counter_ops, 14);
    reveal_with_fuel(Stmt::uses, 14);
    reveal_with_fuel(Stmt::has_join, 14);
    reveal_with_fuel(Stmt::has_jump, 14);
    reveal_with_fuel(Stmt::releases_last, 14);
    reveal_with_fuel(Stmt::size, 14);
    reveal_with_fuel(branches_helper_calls, 14);
    reveal_with_fuel(branches_counter_ops, 14);
    reveal_with_fuel(branches_use, 14);
    reveal_with_fuel(branches_have_join, 14);
    reveal_with_fuel(branches_have_jump, 14);
    reveal_with_fuel(branches_release_last, 14);
    reveal_with_fuel(branches_size, 14);
}

/// What holds of the statement for a list.
pub proof fn lemma_list_shape<'a>(
    env: Env<'a>,
    g: Gen<'a>,
    ctx: Context<'a>,
    layout: Layout<'a>,
    elem_layout: Layout<'a>,
    structure: Symbol,
)
    requires
        keys_unique(g.specs),
        walks_elements(ctx.op, elem_layout) ==> resolve_layout(ctx, elem_layout) is Some,
    ensures
        ({
            let out = emit_list(env, g, ctx, layout, elem_layout, structure);
            let visited = if walks_elements(ctx.op, elem_layout) {
                1nat
            } else {
                0nat
            };
            &&& out.0.helper_calls() == visited
            &&& out.0.counter_ops() == 1
            &&& !out.0.uses(LowLevel::And)
            &&& out.0.has_join() == walks_elements(ctx.op, elem_layout)
            &&& ctx.op is Dec ==> out.0.releases_last()
            &&& out.0.size() <= 40
            &&& grows_by(g, out.1, visited)
        }),
{
    let box_union_layout = box_union(elem_layout);
    let (len, g1) = mint(env, g, "len");
    let (zero, g2) = mint(env, g1, "zero");
    let (is_empty, g3) = mint(env, g2, "is_empty");
    let (elements, g4) = mint(env, g3, "elements");
    let (rc_ptr, g5) = mint(env, g4, "rc_ptr");
    let alignment = layout.spec_allocation_alignment_bytes(env.ptr_size);
    let (ret, g6) = emit_return(env, g5, ctx.op);
    lemma_return_shape(env, g5, ctx.op);
    assert(!ret.uses(LowLevel::And));
    let (outer, g7) = emit_outer(env, g6, ctx.op, elements, rc_ptr, false, alignment, ret);
    lemma_outer_shape(env, g6, ctx.op, elements, rc_ptr, false, alignment, ret);
    lemma_grows_refl(g, g7);
    let (body, g8) = if walks_elements(ctx.op, elem_layout) {
        lemma_list_elems_shape(
            env,
            g7,
            ctx,
            elem_layout,
            spec_layout_unit(),
            box_union_layout,
            len,
            elements,
            outer,
        );
        emit_list_elems(
            env,
            g7,
            ctx,
            elem_layout,
            spec_layout_unit(),
            box_union_layout,
            len,
            elements,
            outer,
        )
    } else {
        lemma_grows_refl(g7, g7);
        (outer, g7)
    };
    let visited = if walks_elements(ctx.op, elem_layout) {
        1nat
    } else {
        0nat
    };
    lemma_grows_trans(g, g7, g8, 0, visited);
    let (empty, g9) = emit_return(env, g8, ctx.op);
    lemma_return_shape(env, g8, ctx.op);
    assert(!empty.uses(LowLevel::And));
    lemma_grows_refl(g8, g9);
    lemma_grows_trans(g, g8, g9, visited, 0);
    reveal_with_fuel(Stmt::helper_calls, 6);
    reveal_with_fuel(Stmt::counter_ops, 6);
    reveal_with_fuel(Stmt::uses, 6);
    reveal_with_fuel(Stmt::has_join, 6);
    reveal_with_fuel(Stmt::has_jump, 6);
    reveal_with_fuel(Stmt::releases_last, 6);
    reveal_with_fuel(Stmt::size, 6);
    reveal_with_fuel(branches_helper_calls, 6);
    reveal_with_fuel(branches_counter_ops, 6);
    reveal_with_fuel(branches_use, 6);
    reveal_with_fuel(branches_have_join, 6);
    reveal_with_fuel(branches_have_jump, 6);
    reveal_with_fuel(branches_release_last, 6);
    reveal_with_fuel(branches_size, 6);
}

/// What holds of the statement for a string.
pub proof fn lemma_str_shape<'a>(env: Env<'a>, g: Gen<'a>, op: HelperOp, string: Symbol)
    ensures
        ({
            let out = emit_str(env, g, op, string);
            &&& out.0.helper_calls() == 0
            &&& out.0.counter_ops() == 1
            &&& !out.0.uses(LowLevel::And)
            &&& !out.0.has_join()
            &&& op is Dec ==> out.0.releases_last()
            &&& out.0.size() <= 20
            &&& out.1.specs == g.specs
        }),
{
    let (len, g1) = mint(env, g, "len");
    let (zero, g2) = mint(env, g1, "zero");
    let (is_big_str, g3) = mint(env, g2, "is_big_str");
    let (elements, g4) = mint(env, g3, "elements");
    let (rc_ptr, g5) = mint(env, g4, "rc_ptr");
    let (ret, g6) = emit_return(env, g5, op);
    lemma_return_shape(env, g5, op);
    assert(!ret.uses(LowLevel::And));
    let (outer, g7) = emit_outer(env, g6, op, elements, rc_ptr, false, env.ptr_size, ret);
    lemma_outer_shape(env, g6, op, elements, rc_ptr, false, env.ptr_size, ret);
    let (small, g8) = emit_return(env, g7, op);
    lemma_return_shape(env, g7, op);
    assert(!small.uses(LowLevel::And));
    reveal_with_fuel(Stmt::helper_calls, 6);
    reveal_with_fuel(Stmt::counter_ops, 6);
    reveal_with_fuel(Stmt::uses, 6);
    reveal_with_fuel(Stmt::has_join, 6);
    reveal_with_fuel(Stmt::has_jump, 6);
    reveal_with_fuel(Stmt::releases_last, 6);
    reveal_with_fuel(Stmt::size, 6);
    reveal_with_fuel(branches_helper_calls, 6);
    reveal_with_fuel(branches_counter_ops, 6);
    reveal_with_fuel(branches_use, 6);
    reveal_with_fuel(branches_have_join, 6);
    reveal_with_fuel(branches_have_jump, 6);
    reveal_with_fuel(branches_release_last, 6);
    reveal_with_fuel(branches_size, 6);
}

/// What holds of the statement for a record.
pub proof fn lemma_struct_shape<'a>(
    env: Env<'a>,
    g: Gen<'a>,
    ctx: Context<'a>,
    field_layouts: Fields<'a>,
    structure: Symbol,
)
    requires
        keys_unique(g.specs),
        !(ctx.op is DecRef) ==> fields_resolvable(ctx, field_layouts),
    ensures
        ({
            let out = emit_struct(env, g, ctx, field_layouts, structure);
            let visited = if ctx.op is DecRef {
                0nat
            } else {
                fields_visited(field_layouts)
            };
            &&& out.0.helper_calls() == visited
            &&& out.0.counter_ops() == 0
            &&& !out.0.uses(LowLevel::And)
            &&& !out.0.has_join()
            &&& out.0.releases_last()
            &&& out.0.size() <= 2 * visited + 2
            &&& grows_by(g, out.1, visited)
        }),
{
    let (ret, g1) = emit_return(env, g, ctx.op);
    lemma_return_shape(env, g, ctx.op);
    assert(!ret.uses(LowLevel::And));
    lemma_grows_refl(g, g1);
    if !(ctx.op is DecRef) {
        let source = FieldSource::Record(&field_layouts);
        lemma_fields_shape(env, g1, ctx, source, field_layouts, 0, structure, ret);
        let out = emit_fields(env, g1, ctx, source, field_layouts, 0, structure, ret);
        assert(out.0.uses(LowLevel::And) == ret.uses(LowLevel::And));
        lemma_grows_trans(g, g1, out.1, 0, fields_visited(field_layouts));
    }
}

/// Number of nodes of the layout tree.
pub open spec fn tree_size(layout: Layout) -> nat
    decreases layout,
{
    1 + match layout {
        Layout::Builtin(Builtin::List(elem)) => tree_size(*elem),
        Layout::Builtin(Builtin::SetOf(key)) => tree_size(*key),
        Layout::Builtin(Builtin::Dict(key, value)) => tree_size(*key) + tree_size(*value),
        Layout::Builtin(_) => 0,
        Layout::Struct(fields) => fields_tree_size(*fields),
        Layout::Union(UnionLayout::NonRecursive(tags)) => tags_tree_size(*tags),
        Layout::Union(UnionLayout::Recursive(tags)) => tags_tree_size(*tags),
        Layout::Union(UnionLayout::NonNullableUnwrapped(fields)) => 1 + fields_tree_size(*fields),
        Layout::Union(UnionLayout::NullableWrapped { other_tags, .. }) => tags_tree_size(
            *other_tags,
        ),
        Layout::Union(UnionLayout::NullableUnwrapped { other_fields, .. }) => 1
            + fields_tree_size(*other_fields),
        Layout::LambdaSet(set) => tree_size(*set.representation),
        Layout::RecursivePointer => 0,
    }
}

/// Number of nodes of the layout trees of `fields`.
pub open spec fn fields_tree_size(fields: Fields) -> nat
    decreases fields,
{
    match fields {
        List::Nil => 0,
        List::Cons(head, tail) => tree_size(head) + fields_tree_size(*tail),
    }
}

/// Number of nodes of the layout trees of `tags`, one for each constructor
/// included.
pub open spec fn tags_tree_size(tags: Tags) -> nat
    decreases tags,
{
    match tags {
        List::Nil => 0,
        List::Cons(head, tail) => 1 + fields_tree_size(*head) + tags_tree_size(*tail),
    }
}

proof fn lemma_fields_tree_size(fields: Fields)
    ensures
        fields.len() <= fields_tree_size(fields),
    decreases fields,
{
    match fields {
        List::Nil => {},
        List::Cons(head, tail) => {
            assert(tree_size(head) >= 1);
            lemma_fields_tree_size(*tail);
        },
    }
}

proof fn lemma_tags_tree_size(tags: Tags)
    ensures
        tags.len() + tags_fields(tags) <= tags_tree_size(tags),
    decreases tags,
{
    match tags {
        List::Nil => {},
        List::Cons(head, tail) => {
            lemma_fields_tree_size(*head);
            lemma_tags_tree_size(*tail);
        },
    }
}

/// What holds of the statement for any layout that has one.
proof fn lemma_generic_shape<'a>(
    env: Env<'a>,
    g: Gen<'a>,
    ctx: Context<'a>,
    layout: Layout<'a>,
    structure: Symbol,
)
    requires
        keys_unique(g.specs),
        can_dispatch(env, ctx, layout),
    ensures
        ({
            let out = emit_generic(env, g, ctx, layout, structure);
            &&& out.0.helper_calls() == visited_children(ctx.op, layout)
            &&& out.0.uses(LowLevel::And) == (layout.runtime_layout() matches Layout::Union(
                union_layout,
            ) && union_layout.spec_stores_tag_id_in_pointer(env.ptr_size))
            &&& out.0.has_join() == (layout.runtime_layout() matches Layout::Builtin(
                Builtin::List(elem),
            ) && walks_elements(ctx.op, *elem))
            &&& ctx.op is Dec ==> out.0.releases_last()
            &&& out.0.size() <= 12 * tree_size(layout) + 40
            &&& grows_by(g, out.1, visited_children(ctx.op, layout))
        }),
    decreases layout,
{
    match layout {
        Layout::Builtin(Builtin::Str) => {
            lemma_str_shape(env, g, ctx.op, structure);
            lemma_grows_refl(g, emit_str(env, g, ctx.op, structure).1);
        },
        Layout::Builtin(Builtin::List(elem)) => {
            lemma_list_shape(env, g, ctx, layout, *elem, structure);
        },
        Layout::Struct(fields) => {
            lemma_struct_shape(env, g, ctx, *fields, structure);
            lemma_fields_visited_le(*fields);
            lemma_fields_tree_size(*fields);
        },
        Layout::Union(union_layout) => {
            let inner = enter_union(ctx, union_layout);
            let tags = union_tags(union_layout);
            if !(union_layout is NonRecursive) {
                lemma_tags_resolvable_in_union(inner, tags);
            }
            lemma_tag_union_help_shape(
                env,
                g,
                inner,
                union_layout,
                tags,
                union_layout.spec_null_id(),
                structure,
            );
            lemma_tags_visited_le(tags);
            lemma_tags_tree_size(tags);
            reveal_with_fuel(tags_tree_size, 3);
            assert(tree_size(layout) == 1 + tags_tree_size(tags));
        },
        Layout::LambdaSet(set) => {
            lemma_generic_shape(env, g, ctx, *set.representation, structure);
        },
        _ => {},
    }
}

/// Each child of the layout tree is asked for at most once. The statement
/// for a layout calls exactly one helper for each child that it visits, so
/// never more helpers than the layout has children; the registry gains at
/// most one entry for each of these calls, keeps every entry it had, and
/// holds no key twice, so that no key ever has two helpers.
pub proof fn law_one_helper_call_per_child<'a>(
    env: Env<'a>,
    g: Gen<'a>,
    ctx: Context<'a>,
    layout: Layout<'a>,
    structure: Symbol,
)
    requires
        keys_unique(g.specs),
        can_dispatch(env, ctx, layout),
    ensures
        ({
            let out = emit_generic(env, g, ctx, layout, structure);
            &&& out.0.helper_calls() == visited_children(ctx.op, layout)
            &&& out.0.helper_calls() <= direct_children(layout)
            &&& grows_by(g, out.1, out.0.helper_calls())
        }),
{
    lemma_generic_shape(env, g, ctx, layout, structure);
    lemma_visited_le_children(ctx.op, layout);
}

/// Under `Dec` nothing is visited after a release: in the statement for
/// any layout, what follows a call of `RefCountDec` calls no helper and
/// does not jump. The release of the outer block thus comes after the
/// calls that release its children, on every path.
pub proof fn law_children_before_release<'a>(
    env: Env<'a>,
    g: Gen<'a>,
    ctx: Context<'a>,
    layout: Layout<'a>,
    structure: Symbol,
)
    requires
        keys_unique(g.specs),
        can_dispatch(env, ctx, layout),
        ctx.op is Dec,
    ensures
        emit_generic(env, g, ctx, layout, structure).0.releases_last(),
{
    lemma_generic_shape(env, g, ctx, layout, structure);
}

/// Under `DecRef` only the outermost block is released: the statement for
/// any layout calls no helper and has no loop, and the registry is as it
/// was.
pub proof fn law_decref_is_shallow<'a>(
    env: Env<'a>,
    g: Gen<'a>,
    ctx: Context<'a>,
    layout: Layout<'a>,
    structure: Symbol,
)
    requires
        keys_unique(g.specs),
        can_dispatch(env, ctx, layout),
        ctx.op is DecRef,
    ensures
        ({
            let out = emit_generic(env, g, ctx, layout, structure);
            &&& out.0.helper_calls() == 0
            &&& !out.0.has_join()
            &&& out.1.specs == g.specs
        }),
{
    lemma_generic_shape(env, g, ctx, layout, structure);
    let out = emit_generic(env, g, ctx, layout, structure);
    assert(out.1.specs =~= out.1.specs.subrange(0, g.specs.len() as int));
}

/// The pointer is masked exactly for the unions that keep their tag id in
/// it: the statement for a layout uses the bitwise and if and only if the
/// layout is, at run time, a union that stores its tag id in the pointer at
/// the pointer size of the target.
pub proof fn law_mask_iff_tag_in_pointer<'a>(
    env: Env<'a>,
    g: Gen<'a>,
    ctx: Context<'a>,
    layout: Layout<'a>,
    structure: Symbol,
)
    requires
        keys_unique(g.specs),
        can_dispatch(env, ctx, layout),
    ensures
        emit_generic(env, g, ctx, layout, structure).0.uses(LowLevel::And) == (
        layout.runtime_layout() matches Layout::Union(union_layout)
            && union_layout.spec_stores_tag_id_in_pointer(env.ptr_size)),
{
    lemma_generic_shape(env, g, ctx, layout, structure);
}

/// The statement for a layout is no larger than a constant times the
/// layout tree. Emission builds each of its statements once.
pub proof fn law_statement_linear_in_layout<'a>(
    env: Env<'a>,
    g: Gen<'a>,
    ctx: Context<'a>,
    layout: Layout<'a>,
    structure: Symbol,
)
    requires
        keys_unique(g.specs),
        can_dispatch(env, ctx, layout),
    ensures
        emit_generic(env, g, ctx, layout, structure).0.size() <= 12 * tree_size(layout) + 40,
{
    lemma_generic_shape(env, g, ctx, layout, structure);
}

/// Where reference counting is implemented for the fields, a helper can be
/// asked for each of them.
proof fn lemma_implemented_fields_resolvable<'a>(
    ctx: Context<'a>,
    fields: Fields<'a>,
    enclosed: bool,
)
    requires
        fields_rc_implemented(fields, enclosed),
        enclosed ==> ctx.recursive_union is Some,
    ensures
        fields_resolvable(ctx, fields),
    decreases fields,
{
    match fields {
        List::Nil => {},
        List::Cons(head, tail) => {
            assert(rc_implemented(head, enclosed));
            lemma_implemented_fields_resolvable(ctx, *tail, enclosed);
        },
    }
}

proof fn lemma_implemented_tags_resolvable<'a>(ctx: Context<'a>, tags: Tags<'a>, enclosed: bool)
    requires
        tags_rc_implemented(tags, enclosed),
        enclosed ==> ctx.recursive_union is Some,
    ensures
        tags_resolvable(ctx, tags),
    decreases tags,
{
    match tags {
        List::Nil => {},
        List::Cons(head, tail) => {
            lemma_implemented_fields_resolvable(ctx, *head, enclosed);
            lemma_implemented_tags_resolvable(ctx, *tail, enclosed);
        },
    }
}

/// The stack size of the elements of a list fits 32 bits, where the
/// statement for `layout` carries it.
pub open spec fn element_size_fits<'a>(env: Env<'a>, op: HelperOp, layout: Layout<'a>) -> bool {
    layout.runtime_layout() matches Layout::Builtin(Builtin::List(elem)) ==> (walks_elements(
        op,
        *elem,
    ) ==> elem.spec_stack_size(env.ptr_size) <= u32::MAX)
}

/// Emission is defined wherever the capability query says so: for a layout
/// for which reference counting is implemented, that is counted at all and
/// whose numbers fit the IR, the statement can be emitted, under any
/// operation. `ctx` names an enclosing union exactly where the layout is
/// taken to stand inside one.
pub proof fn law_implemented_can_dispatch<'a>(env: Env<'a>, ctx: Context<'a>, layout: Layout<'a>)
    requires
        rc_implemented(layout, ctx.recursive_union is Some),
        !layout.spec_is_primitive(),
        !(layout.runtime_layout() is RecursivePointer),
        layout.wf(),
        element_size_fits(env, ctx.op, layout),
    ensures
        can_dispatch(env, ctx, layout),
    decreases layout,
{
    let enclosed = ctx.recursive_union is Some;
    match layout {
        Layout::Builtin(Builtin::List(elem)) => {
            assert(rc_implemented(*elem, enclosed));
        },
        Layout::Struct(fields) => {
            lemma_implemented_fields_resolvable(ctx, *fields, enclosed);
        },
        Layout::Union(union_layout) => {
            if union_layout is NonRecursive {
                lemma_implemented_tags_resolvable(ctx, union_tags(union_layout), enclosed);
            }
        },
        Layout::LambdaSet(set) => {
            law_implemented_can_dispatch(env, ctx, *set.representation);
        },
        _ => {},
    }
}

/// A small string is left alone. The statement for a string branches on
/// `length >= 0`, the length being field 1 of the string; where that is
/// false the string is small and has no heap block, and the branch taken
/// calls no counter primitive and no helper. Where it is true the branch
/// taken changes one counter.
pub proof fn law_small_string_untouched<'a>(env: Env<'a>, g: Gen<'a>, op: HelperOp, string: Symbol)
    requires
        g.idents.len() + 3 <= usize::MAX,
    ensures
        ({
            let stmt = emit_str(env, g, op, string).0;
            &&& stmt.skip_lets() is Switch
            &&& stmt.switch_condition() matches Some(test) && {
                &&& test.is_lowlevel(LowLevel::NumGte)
                &&& stmt.operand(test, 0) matches Some(
                    Expr::StructAtIndex { index, structure, .. },
                ) && index == 1 && structure == string
                &&& stmt.operand(test, 1) == Some(
                    Expr::Literal(Literal::Int(0)),
                )
            }
            &&& stmt.skip_lets().select(0).leaves_counts_alone()
            &&& stmt.skip_lets().select(1).counter_ops() == 1
        }),
{
    let (len, g1) = mint(env, g, "len");
    let (zero, g2) = mint(env, g1, "zero");
    let (is_big_str, g3) = mint(env, g2, "is_big_str");
    let (elements, g4) = mint(env, g3, "elements");
    let (rc_ptr, g5) = mint(env, g4, "rc_ptr");
    let (ret, g6) = emit_return(env, g5, op);
    lemma_return_shape(env, g5, op);
    let (outer, g7) = emit_outer(env, g6, op, elements, rc_ptr, false, env.ptr_size, ret);
    lemma_outer_shape(env, g6, op, elements, rc_ptr, false, env.ptr_size, ret);
    let (small, g8) = emit_return(env, g7, op);
    lemma_return_shape(env, g7, op);
    assert(len != zero && len != is_big_str && zero != is_big_str);
    reveal_with_fuel(Stmt::skip_lets, 5);
    reveal_with_fuel(Stmt::binding, 5);
    reveal_with_fuel(Stmt::counter_ops, 3);
    reveal_with_fuel(Stmt::helper_calls, 3);
    reveal_with_fuel(branches_select, 3);
    reveal_with_fuel(List::get, 3);
}

/// An empty list is left alone. The statement for a list branches on
/// `length == 0`, the length being what `ListLen` yields for the list;
/// where that is true the list has no heap block, and the branch taken
/// calls no counter primitive and no helper. Where it is false the branch
/// taken changes one counter.
pub proof fn law_empty_list_untouched<'a>(
    env: Env<'a>,
    g: Gen<'a>,
    ctx: Context<'a>,
    layout: Layout<'a>,
    elem_layout: Layout<'a>,
    structure: Symbol,
)
    requires
        g.idents.len() + 3 <= usize::MAX,
        keys_unique(g.specs),
        walks_elements(ctx.op, elem_layout) ==> resolve_layout(ctx, elem_layout) is Some,
    ensures
        ({
            let stmt = emit_list(env, g, ctx, layout, elem_layout, structure).0;
            &&& stmt.skip_lets() is Switch
            &&& stmt.switch_condition() matches Some(test) && {
                &&& test.is_lowlevel(LowLevel::Eq)
                &&& stmt.operand(test, 0) == Some(
                    lowlevel_call(LowLevel::ListLen, args1(structure)),
                )
                &&& stmt.operand(test, 1) == Some(
                    Expr::Literal(Literal::Int(0)),
                )
            }
            &&& stmt.skip_lets().select(1).leaves_counts_alone()
            &&& stmt.skip_lets().select(0).counter_ops() == 1
        }),
{
    let box_union_layout = box_union(elem_layout);
    let (len, g1) = mint(env, g, "len");
    let (zero, g2) = mint(env, g1, "zero");
    let (is_empty, g3) = mint(env, g2, "is_empty");
    let (elements, g4) = mint(env, g3, "elements");
    let (rc_ptr, g5) = mint(env, g4, "rc_ptr");
    let alignment = layout.spec_allocation_alignment_bytes(env.ptr_size);
    let (ret, g6) = emit_return(env, g5, ctx.op);
    lemma_return_shape(env, g5, ctx.op);
    let (outer, g7) = emit_outer(env, g6, ctx.op, elements, rc_ptr, false, alignment, ret);
    lemma_outer_shape(env, g6, ctx.op, elements, rc_ptr, false, alignment, ret);
    let (body, g8) = if walks_elements(ctx.op, elem_layout) {
        lemma_list_elems_shape(
            env,
            g7,
            ctx,
            elem_layout,
            spec_layout_unit(),
            box_union_layout,
            len,
            elements,
            outer,
        );
        emit_list_elems(
            env,
            g7,
            ctx,
            elem_layout,
            spec_layout_unit(),
            box_union_layout,
            len,
            elements,
            outer,
        )
    } else {
        (outer, g7)
    };
    let (empty, g9) = emit_return(env, g8, ctx.op);
    lemma_return_shape(env, g8, ctx.op);
    assert(len != zero && len != is_empty && zero != is_empty);
    reveal_with_fuel(Stmt::skip_lets, 5);
    reveal_with_fuel(Stmt::binding, 5);
    reveal_with_fuel(Stmt::counter_ops, 3);
    reveal_with_fuel(Stmt::helper_calls, 3);
    reveal_with_fuel(branches_select, 3);
    reveal_with_fuel(List::get, 3);
}

/// A null pointer is left alone. The statement for a heap union that has
/// a null constructor branches on the tag id of the value; where that is
/// the null id there is no heap block, and the branch taken calls no
/// counter primitive and no helper.
pub proof fn law_null_untouched<'a>(
    env: Env<'a>,
    g: Gen<'a>,
    ctx: Context<'a>,
    union_layout: UnionLayout<'a>,
    structure: Symbol,
)
    requires
        !(union_layout is NonRecursive),
        union_layout.spec_null_id() is Some,
    ensures
        ({
            let stmt = emit_tag_union(env, g, ctx, union_layout, structure).0;
            let null_id = union_layout.spec_null_id().unwrap();
            &&& stmt.skip_lets() is Switch
            &&& stmt.switch_condition() == Some(
                Expr::GetTagId { structure, union_layout },
            )
            &&& stmt.skip_lets().select(null_id as u64).leaves_counts_alone()
        }),
{
    let inner = enter_union(ctx, union_layout);
    let (tag_id_sym, g1) = mint(env, g, "tag_id");
    let (ret, g2) = emit_return(env, g1, inner.op);
    let out = emit_tag_union(env, g, ctx, union_layout, structure);
    let guard = out.0->Let_3;
    assert(guard is Switch);
    let null_ret = guard->Switch_branches->Cons_0.2;
    let before = choose|before: Gen<'a>| null_ret == emit_return(env, before, inner.op).0;
    lemma_return_shape(env, before, inner.op);
    reveal_with_fuel(Stmt::skip_lets, 3);
    reveal_with_fuel(Stmt::binding, 3);
    reveal_with_fuel(branches_select, 3);
}

} // verus!
