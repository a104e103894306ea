//! What the emitted statements do when they run.

use crate::arena::List;
use crate::help::Context;
use crate::help::Env;
use crate::help::Gen;
use crate::help::HelperOp;
use crate::help::Specialization;
use crate::help::find_from;
use crate::help::helper_symbol;
use crate::help::keys_unique;
use crate::help::mint;
use crate::help::resolve_layout;
use crate::ir::Stmt;
use crate::ir::spec_layout_unit;
use crate::laws::fields_visited;
use crate::laws::grows_by;
use crate::laws::law_one_helper_call_per_child;
use crate::laws::lemma_fields_shape;
use crate::laws::lemma_grows_refl;
use crate::laws::lemma_grows_trans;
use crate::laws::lemma_helper_symbol_grows;
use crate::laws::lemma_list_elems_shape;
use crate::laws::tags_visited;
use crate::layout::Builtin;
use crate::layout::Fields;
use crate::layout::Layout;
use crate::layout::MAX_TAGS;
use crate::layout::Tags;
use crate::layout::UnionLayout;
use crate::layout::round_up_to_alignment;
use crate::layout::tags_indexable;
use crate::machine::Event;
use crate::machine::Exit;
use crate::machine::JoinPoint;
use crate::machine::State;
use crate::machine::Value;
use crate::machine::argument_values;
use crate::machine::bind_parameters;
use crate::machine::bit_and;
use crate::machine::lookup;
use crate::machine::number;
use crate::machine::run;
use crate::machine::run_switch;
use crate::refcount::FieldSource;
use crate::refcount::box_union;
use crate::refcount::can_dispatch;
use crate::refcount::emit_fields;
use crate::refcount::emit_generic;
use crate::refcount::emit_list;
use crate::refcount::emit_list_elems;
use crate::refcount::emit_modify;
use crate::refcount::emit_outer;
use crate::refcount::emit_return;
use crate::refcount::emit_str;
use crate::refcount::emit_struct;
use crate::refcount::emit_tag_branches;
use crate::refcount::emit_tag_union;
use crate::refcount::emit_union_fields;
use crate::refcount::enter_union;
use crate::refcount::fields_resolvable;
use crate::refcount::helper_args;
use crate::refcount::lemma_tags_resolvable_in_union;
use crate::refcount::null_pending;
use crate::refcount::skip_null;
use crate::refcount::tags_resolvable;
use crate::refcount::union_tags;
use crate::refcount::walks_elements;
use crate::symbol::JoinPointId;
use crate::symbol::Symbol;
use vstd::prelude::*;

verus! {

/// The symbol was not minted at or after the table `g`: it belongs to
/// another module, or is an earlier identifier of the home module.
pub open spec fn known(env: Env, g: Gen, symbol: Symbol) -> bool {
    symbol.module_id != env.home || symbol.ident_id < g.idents.len()
}

/// The address of the counter of the heap block that `pointer` points to:
/// one word before the data, the tag bits of the pointer cleared first
/// where it carries any.
pub open spec fn slot_of(env: Env, pointer: int, mask: bool) -> int {
    (if mask {
        bit_and(pointer, -(env.ptr_size as int))
    } else {
        pointer
    }) - env.ptr_size
}

/// The call of the counter primitive that the operation `op` makes on the
/// counter at `slot`: under `Inc` with the amount, else with the alignment.
pub open spec fn count_event(op: HelperOp, amount: Value, slot: int, alignment: u32) -> Event {
    Event::Count {
        inc: op is Inc,
        slot,
        arg: if op is Inc {
            amount
        } else {
            Value::Int(alignment as int)
        },
    }
}

/// How emitted code that performs `op` leaves: by the return of the empty
/// record, or under `DecRef` by the jump to the join point of the caller.
pub open spec fn leaves(op: HelperOp) -> Exit {
    match op {
        HelperOp::DecRef(jp_decref) => Exit::Left(jp_decref),
        _ => Exit::Returned(Value::Unit),
    }
}

/// The join point that `op` leaves by, if any, is not among `joins`.
pub open spec fn leaves_freely(op: HelperOp, joins: Map<JoinPointId, JoinPoint>) -> bool {
    op matches HelperOp::DecRef(jp_decref) ==> !joins.contains_key(jp_decref)
}

/// The end of emitted code changes no counter.
pub proof fn lemma_run_return<'a>(
    env: Env<'a>,
    g: Gen<'a>,
    op: HelperOp,
    st: State,
    joins: Map<JoinPointId, JoinPoint<'a>>,
    fuel: nat,
)
    requires
        leaves_freely(op, joins),
    ensures
        run(emit_return(env, g, op).0, st, joins, fuel).0.trace == st.trace,
        run(emit_return(env, g, op).0, st, joins, fuel).1 == leaves(op),
{
    reveal_with_fuel(run, 3);
}

/// The outer phase changes the counter of the block that `data_ptr` points
/// to, once, and then goes on with `following`. It binds `rc_ptr` and
/// symbols of its own, and leaves every other binding as it was.
pub proof fn lemma_run_outer<'a>(
    env: Env<'a>,
    g: Gen<'a>,
    op: HelperOp,
    data_ptr: Symbol,
    rc_ptr: Symbol,
    mask_lower_bits: bool,
    alignment: u32,
    following: Stmt<'a>,
    st: State,
    joins: Map<JoinPointId, JoinPoint<'a>>,
    fuel: nat,
) -> (st2: State)
    requires
        emit_outer(
            env,
            g,
            op,
            data_ptr,
            rc_ptr,
            mask_lower_bits,
            alignment,
            following,
        ).1.idents.len() <= usize::MAX,
        known(env, g, data_ptr),
        known(env, g, rc_ptr),
        known(env, g, Symbol::spec_arg_2()),
        rc_ptr != Symbol::spec_arg_2(),
    ensures
        run(
            emit_outer(env, g, op, data_ptr, rc_ptr, mask_lower_bits, alignment, following).0,
            st,
            joins,
            fuel,
        ) == run(following, st2, joins, fuel),
        st2.trace == st.trace.push(
            count_event(
                op,
                lookup(st.env, Symbol::spec_arg_2()),
                slot_of(env, number(lookup(st.env, data_ptr)), mask_lower_bits),
                alignment,
            ),
        ),
        forall|s: Symbol| known(env, g, s) && s != rc_ptr ==> lookup(st2.env, s) == lookup(st.env, s),
{
    let (call_result, g1) = mint(env, g, "rc_call_result");
    let g2 = if op is Inc {
        g1
    } else {
        mint(env, g1, "alignment").1
    };
    let alignment_sym = mint(env, g1, "alignment").0;
    let (modify, gm) = emit_modify(env, g, op, rc_ptr, alignment, following);
    assert(gm == g2);
    let (addr, g3) = mint(env, g2, "addr");
    let (mask, g4) = mint(env, g3, "mask");
    let (masked, g5) = mint(env, g4, "masked");
    let (ptr_size, g6) = mint(env, g5, "ptr_size");
    let (rc_addr, g7) = mint(env, g6, "rc_addr");
    let pointer = number(lookup(st.env, data_ptr));
    let slot = slot_of(env, pointer, mask_lower_bits);

    let e1 = st.env.insert(addr, Value::Int(pointer));
    let e2 = if mask_lower_bits {
        e1.insert(mask, Value::Int(-(env.ptr_size as int))).insert(
            masked,
            Value::Int(bit_and(pointer, -(env.ptr_size as int))),
        )
    } else {
        e1
    };
    let e3 = e2.insert(ptr_size, Value::Int(env.ptr_size as int));
    let e4 = e3.insert(rc_addr, Value::Int(slot));
    let e5 = e4.insert(rc_ptr, Value::Int(slot));
    let e6 = if op is Inc {
        e5
    } else {
        e5.insert(alignment_sym, Value::Int(alignment as int))
    };
    let e7 = e6.insert(call_result, Value::Unit);
    let st2 = State {
        env: e7,
        trace: st.trace.push(
            count_event(op, lookup(st.env, Symbol::spec_arg_2()), slot, alignment),
        ),
    };
    reveal_with_fuel(run, 10);
    reveal_with_fuel(List::get, 3);
    assert(run(
        emit_outer(env, g, op, data_ptr, rc_ptr, mask_lower_bits, alignment, following).0,
        st,
        joins,
        fuel,
    ) == run(modify, State { env: e5, trace: st.trace }, joins, fuel));
    assert(run(modify, State { env: e5, trace: st.trace }, joins, fuel) == run(
        following,
        st2,
        joins,
        fuel,
    ));
    st2
}

/// What running the statement for a string does. A string whose length
/// is negative is small and has no counter: nothing happens. Otherwise the
/// counter one word before the elements is changed, once.
pub proof fn law_string_run<'a>(
    env: Env<'a>,
    g: Gen<'a>,
    op: HelperOp,
    string: Symbol,
    st: State,
    joins: Map<JoinPointId, JoinPoint<'a>>,
    fuel: nat,
)
    requires
        emit_str(env, g, op, string).1.idents.len() <= usize::MAX,
        known(env, g, string),
        known(env, g, Symbol::spec_arg_2()),
        leaves_freely(op, joins),
        lookup(st.env, string) is Pair,
    ensures
        ({
            let out = run(emit_str(env, g, op, string).0, st, joins, fuel);
            let elements = lookup(st.env, string)->Pair_0;
            let len = lookup(st.env, string)->Pair_1;
            &&& out.1 == leaves(op)
            &&& len < 0 ==> out.0.trace == st.trace
            &&& len >= 0 ==> out.0.trace == st.trace.push(
                count_event(
                    op,
                    lookup(st.env, Symbol::spec_arg_2()),
                    slot_of(env, elements, false),
                    env.ptr_size,
                ),
            )
        }),
{
    let elements_at = lookup(st.env, string)->Pair_0;
    let length = lookup(st.env, string)->Pair_1;
    let (len, g1) = mint(env, g, "len");
    let (zero, g2) = mint(env, g1, "zero");
    let (is_big_str, g3) = mint(env, g2, "is_big_str");
    let (elements, g4) = mint(env, g3, "elements");
    let (rc_ptr, g5) = mint(env, g4, "rc_ptr");
    let (ret, g6) = emit_return(env, g5, op);
    let (outer, g7) = emit_outer(env, g6, op, elements, rc_ptr, false, env.ptr_size, ret);
    let (small, g8) = emit_return(env, g7, op);
    let big = if length >= 0 {
        1int
    } else {
        0int
    };
    let e3 = st.env.insert(len, Value::Int(length)).insert(zero, Value::Int(0)).insert(
        is_big_str,
        Value::Int(big),
    );
    let st3 = State { env: e3, trace: st.trace };
    let stmt = emit_str(env, g, op, string).0;
    reveal_with_fuel(run, 10);
    reveal_with_fuel(run_switch, 10);
    reveal_with_fuel(List::get, 3);
    if length >= 0 {
        let st4 = State { env: e3.insert(elements, Value::Int(elements_at)), trace: st.trace };
        assert(run(stmt, st, joins, fuel) == run(outer, st4, joins, fuel));
        let st5 = lemma_run_outer(
            env,
            g6,
            op,
            elements,
            rc_ptr,
            false,
            env.ptr_size,
            ret,
            st4,
            joins,
            fuel,
        );
        lemma_run_return(env, g5, op, st5, joins, fuel);
        assert(lookup(st4.env, Symbol::spec_arg_2()) == lookup(st.env, Symbol::spec_arg_2()));
    } else {
        assert(run(stmt, st, joins, fuel) == run(small, st3, joins, fuel));
        lemma_run_return(env, g7, op, st3, joins, fuel);
    }
}

/// The registry `later` holds every entry of `earlier`, at the same place,
/// and has no key twice.
pub open spec fn extends(earlier: Seq<Specialization>, later: Seq<Specialization>) -> bool {
    &&& keys_unique(later)
    &&& earlier.len() <= later.len()
    &&& later.subrange(0, earlier.len() as int) == earlier
}

/// What was registered stays registered, under the same name.
pub proof fn lemma_find_stable(
    earlier: Seq<Specialization>,
    later: Seq<Specialization>,
    op: HelperOp,
    layout: Layout,
    from: nat,
)
    requires
        extends(earlier, later),
        find_from(earlier, op, layout, from) is Some,
    ensures
        find_from(later, op, layout, from) == find_from(earlier, op, layout, from),
    decreases earlier.len() - from,
{
    if from < earlier.len() {
        assert(later.subrange(0, earlier.len() as int)[from as int] == later[from as int]);
        if !(earlier[from as int].op == op && earlier[from as int].layout == layout) {
            lemma_find_stable(earlier, later, op, layout, from + 1);
        }
    }
}

/// Extension composes with growth.
pub proof fn lemma_extends_grown(a: Gen, b: Gen, n: nat, later: Seq<Specialization>)
    requires
        grows_by(a, b, n),
        extends(b.specs, later),
    ensures
        extends(a.specs, later),
{
    assert(later.subrange(0, a.specs.len() as int) =~= a.specs) by {
        assert forall|i: int| 0 <= i < a.specs.len() implies later[i] == a.specs[i] by {
            assert(later.subrange(0, b.specs.len() as int)[i] == b.specs[i]);
            assert(b.specs.subrange(0, a.specs.len() as int)[i] == a.specs[i]);
        }
    }
}

/// The name under which the registry `specs` holds the helper that is
/// called for values of layout `called` under `ctx`.
pub open spec fn helper_of<'a>(specs: Seq<Specialization<'a>>, ctx: Context<'a>, called: Layout<'a>)
    -> Symbol {
    find_from(specs, ctx.op, resolve_layout(ctx, called).unwrap(), 0).unwrap()
}

/// The call of the helper for layout `called` on `value`, with `amount`
/// passed along under `Inc`.
pub open spec fn call_event<'a>(
    specs: Seq<Specialization<'a>>,
    ctx: Context<'a>,
    called: Layout<'a>,
    value: Value,
    amount: Value,
) -> Event {
    Event::Call {
        name: helper_of(specs, ctx, called),
        args: if ctx.op is Inc {
            seq![value, amount]
        } else {
            seq![value]
        },
    }
}

/// Field `index` of the value `container`, read as `source` says.
pub open spec fn field_value(source: FieldSource, container: Value, index: u64) -> Value {
    match source {
        FieldSource::Record(_) => match container {
            Value::Pair(elements, len) => Value::Int(
                if index == 0 {
                    elements
                } else {
                    len
                },
            ),
            Value::Record(fields) => if index < fields.len() {
                fields[index as int]
            } else {
                Value::Unit
            },
            _ => Value::Unit,
        },
        FieldSource::Constructor(_, _) => match container {
            Value::Variant(_, _, fields) => if index < fields.len() {
                fields[index as int]
            } else {
                Value::Unit
            },
            Value::Int(address) => Value::Stored(address),
            _ => Value::Unit,
        },
    }
}

/// The helper calls that a walk over the fields `rest` of `container`
/// makes: one for each field that holds something counted, on the value of
/// that field, in index order.
pub open spec fn field_calls<'a>(
    specs: Seq<Specialization<'a>>,
    ctx: Context<'a>,
    source: FieldSource<'a>,
    rest: Fields<'a>,
    index: u64,
    container: Value,
    amount: Value,
) -> Seq<Event>
    decreases rest,
{
    match rest {
        List::Nil => Seq::empty(),
        List::Cons(field, more) => (if field.spec_contains_refcounted() {
            seq![call_event(specs, ctx, field, field_value(source, container, index), amount)]
        } else {
            Seq::empty()
        }) + field_calls(specs, ctx, source, *more, (index + 1) as u64, container, amount),
    }
}

/// The walk over fields only adds to the identifier table.
pub proof fn lemma_fields_idents<'a>(
    env: Env<'a>,
    g: Gen<'a>,
    ctx: Context<'a>,
    source: FieldSource<'a>,
    rest: Fields<'a>,
    index: u64,
    structure: Symbol,
    tail: Stmt<'a>,
)
    requires
        keys_unique(g.specs),
        fields_resolvable(ctx, rest),
    ensures
        g.idents.len() <= emit_fields(
            env,
            g,
            ctx,
            source,
            rest,
            index,
            structure,
            tail,
        ).1.idents.len(),
    decreases rest,
{
    match rest {
        List::Nil => {},
        List::Cons(field, more) => {
            let next = (index + 1) as u64;
            let inner = emit_fields(env, g, ctx, source, *more, next, structure, tail);
            lemma_fields_idents(env, g, ctx, source, *more, next, structure, tail);
            lemma_fields_shape(env, g, ctx, source, *more, next, structure, tail);
            if field.spec_contains_refcounted() {
                let (field_val, g2) = mint(env, inner.1, "field_val");
                let (mod_unit, g3) = mint(env, g2, "mod_field");
                lemma_grows_refl(inner.1, g3);
                lemma_helper_symbol_grows(env, g3, ctx.op, resolve_layout(ctx, field).unwrap());
            }
        },
    }
}

/// Running the walk over fields calls the helper of each field that holds
/// something counted, in index order, and then goes on with `tail`. It
/// binds symbols of its own only.
pub proof fn lemma_run_fields<'a>(
    env: Env<'a>,
    g: Gen<'a>,
    ctx: Context<'a>,
    source: FieldSource<'a>,
    rest: Fields<'a>,
    index: u64,
    structure: Symbol,
    tail: Stmt<'a>,
    st: State,
    joins: Map<JoinPointId, JoinPoint<'a>>,
    fuel: nat,
    later: Seq<Specialization<'a>>,
) -> (st2: State)
    requires
        keys_unique(g.specs),
        fields_resolvable(ctx, rest),
        index + rest.len() <= u64::MAX,
        emit_fields(env, g, ctx, source, rest, index, structure, tail).1.idents.len() <= usize::MAX,
        extends(emit_fields(env, g, ctx, source, rest, index, structure, tail).1.specs, later),
        known(env, g, structure),
        known(env, g, Symbol::spec_arg_2()),
    ensures
        run(emit_fields(env, g, ctx, source, rest, index, structure, tail).0, st, joins, fuel)
            == run(tail, st2, joins, fuel),
        st2.trace == st.trace + field_calls(
            later,
            ctx,
            source,
            rest,
            index,
            lookup(st.env, structure),
            lookup(st.env, Symbol::spec_arg_2()),
        ),
        forall|s: Symbol| known(env, g, s) ==> lookup(st2.env, s) == lookup(st.env, s),
        g.idents.len() <= emit_fields(
            env,
            g,
            ctx,
            source,
            rest,
            index,
            structure,
            tail,
        ).1.idents.len(),
    decreases rest,
{
    let out = emit_fields(env, g, ctx, source, rest, index, structure, tail);
    let container = lookup(st.env, structure);
    let amount = lookup(st.env, Symbol::spec_arg_2());
    match rest {
        List::Nil => {
            assert(st.trace + Seq::<Event>::empty() =~= st.trace);
            st
        },
        List::Cons(field, more) => {
            let next = (index + 1) as u64;
            let inner = emit_fields(env, g, ctx, source, *more, next, structure, tail);
            lemma_fields_shape(env, g, ctx, source, *more, next, structure, tail);
            lemma_fields_idents(env, g, ctx, source, *more, next, structure, tail);
            if field.spec_contains_refcounted() {
                let (field_val, g2) = mint(env, inner.1, "field_val");
                let (mod_unit, g3) = mint(env, g2, "mod_field");
                let layout = resolve_layout(ctx, field).unwrap();
                lemma_grows_refl(inner.1, g3);
                lemma_helper_symbol_grows(env, g3, ctx.op, layout);
                let named = helper_symbol(env, g3, ctx.op, layout);
                assert(out.1 == named.1);
                lemma_grows_trans(inner.1, g3, out.1, 0, 1);
                lemma_extends_grown(inner.1, out.1, 1, later);
                lemma_find_stable(out.1.specs, later, ctx.op, layout, 0);
                assert(named.0 == helper_of(later, ctx, field));

                let value = field_value(source, container, index);
                let event = call_event(later, ctx, field, value, amount);
                let e1 = st.env.insert(field_val, value);
                let st1 = State { env: e1.insert(mod_unit, Value::Unit), trace: st.trace.push(event) };
                assert(run(out.0, st, joins, fuel) == run(inner.0, st1, joins, fuel)) by {
                    reveal_with_fuel(run, 3);
                    reveal_with_fuel(List::get, 3);
                    reveal_with_fuel(argument_values, 3);
                    let args = helper_args(ctx.op, field_val);
                    if ctx.op is Inc {
                        assert(argument_values(e1, args) =~= seq![value, amount]);
                    } else {
                        assert(argument_values(e1, args) =~= seq![value]);
                    }
                }
                let st2 = lemma_run_fields(
                    env,
                    g,
                    ctx,
                    source,
                    *more,
                    next,
                    structure,
                    tail,
                    st1,
                    joins,
                    fuel,
                    later,
                );
                assert(st2.trace =~= st.trace + field_calls(
                    later,
                    ctx,
                    source,
                    rest,
                    index,
                    container,
                    amount,
                ));
                st2
            } else {
                let st2 = lemma_run_fields(
                    env,
                    g,
                    ctx,
                    source,
                    *more,
                    next,
                    structure,
                    tail,
                    st,
                    joins,
                    fuel,
                    later,
                );
                assert(st2.trace =~= st.trace + field_calls(
                    later,
                    ctx,
                    source,
                    rest,
                    index,
                    container,
                    amount,
                ));
                st2
            }
        },
    }
}

/// What running the statement for a record does: the helper of each field
/// that holds something counted is called on the value of that field, in
/// index order. Under `DecRef` nothing happens.
pub proof fn law_struct_run<'a>(
    env: Env<'a>,
    g: Gen<'a>,
    ctx: Context<'a>,
    field_layouts: Fields<'a>,
    structure: Symbol,
    st: State,
    joins: Map<JoinPointId, JoinPoint<'a>>,
    fuel: nat,
    later: Seq<Specialization<'a>>,
)
    requires
        keys_unique(g.specs),
        !(ctx.op is DecRef) ==> field_layouts.len() < u64::MAX && fields_resolvable(
            ctx,
            field_layouts,
        ),
        emit_struct(env, g, ctx, field_layouts, structure).1.idents.len() <= usize::MAX,
        extends(emit_struct(env, g, ctx, field_layouts, structure).1.specs, later),
        known(env, g, structure),
        known(env, g, Symbol::spec_arg_2()),
        leaves_freely(ctx.op, joins),
    ensures
        ({
            let out = run(emit_struct(env, g, ctx, field_layouts, structure).0, st, joins, fuel);
            &&& out.1 == leaves(ctx.op)
            &&& out.0.trace == st.trace + children_calls(
                later,
                ctx,
                FieldSource::Record(&field_layouts),
                field_layouts,
                lookup(st.env, structure),
                lookup(st.env, Symbol::spec_arg_2()),
            )
        }),
{
    let (ret, g1) = emit_return(env, g, ctx.op);
    if ctx.op is DecRef {
        lemma_run_return(env, g, ctx.op, st, joins, fuel);
        assert(st.trace + Seq::<Event>::empty() =~= st.trace);
    } else {
        let st2 = lemma_run_fields(
            env,
            g1,
            ctx,
            FieldSource::Record(&field_layouts),
            field_layouts,
            0,
            structure,
            ret,
            st,
            joins,
            fuel,
            later,
        );
        lemma_run_return(env, g, ctx.op, st2, joins, fuel);
    }
}

/// The helper calls made for the fields `fields` of `container`: none
/// under `DecRef`, else one for each field that holds something counted.
pub open spec fn children_calls<'a>(
    specs: Seq<Specialization<'a>>,
    ctx: Context<'a>,
    source: FieldSource<'a>,
    fields: Fields<'a>,
    container: Value,
    amount: Value,
) -> Seq<Event> {
    if ctx.op is DecRef {
        Seq::empty()
    } else {
        field_calls(specs, ctx, source, fields, 0, container, amount)
    }
}

/// The constructor that a union value with tag id `tag` is taken to be: the
/// one numbered `tag` where there is one among all but the last of `rest`,
/// else the last. Constructors are numbered from `next_id` on, the null id
/// passed over.
pub open spec fn chosen_constructor<'a>(
    rest: Tags<'a>,
    next_id: u16,
    null_id: Option<u16>,
    tag: int,
) -> (u16, Fields<'a>)
    decreases rest,
{
    match rest {
        List::Nil => (next_id, List::Nil),
        List::Cons(fields, more) => {
            let id = skip_null(next_id, null_id);
            if *more is Nil || id == tag {
                (id, *fields)
            } else {
                chosen_constructor(*more, (id + 1) as u16, null_id, tag)
            }
        },
    }
}

/// The field walks of a union only add to the registry and to the
/// identifier table.
pub proof fn lemma_tag_branches_grow<'a>(
    env: Env<'a>,
    g: Gen<'a>,
    ctx: Context<'a>,
    union_layout: UnionLayout<'a>,
    rest: Tags<'a>,
    next_id: u16,
    null_id: Option<u16>,
    structure: Symbol,
    tail: Stmt<'a>,
)
    requires
        keys_unique(g.specs),
        tags_resolvable(ctx, rest),
    ensures
        ({
            let out = emit_tag_branches(
                env,
                g,
                ctx,
                union_layout,
                rest,
                next_id,
                null_id,
                structure,
                tail,
            );
            &&& grows_by(g, out.2, tags_visited(rest))
            &&& g.idents.len() <= out.2.idents.len()
        }),
    decreases rest,
{
    match rest {
        List::Nil => {
            lemma_grows_refl(g, g);
        },
        List::Cons(fields, more) => {
            let id = skip_null(next_id, null_id);
            let source = FieldSource::Constructor(union_layout, id);
            let walk = emit_fields(env, g, ctx, source, *fields, 0, structure, tail);
            lemma_fields_shape(env, g, ctx, source, *fields, 0, structure, tail);
            lemma_fields_idents(env, g, ctx, source, *fields, 0, structure, tail);
            if !(*more is Nil) {
                let next = (id + 1) as u16;
                let out = emit_tag_branches(
                    env,
                    walk.1,
                    ctx,
                    union_layout,
                    *more,
                    next,
                    null_id,
                    structure,
                    tail,
                );
                lemma_tag_branches_grow(
                    env,
                    walk.1,
                    ctx,
                    union_layout,
                    *more,
                    next,
                    null_id,
                    structure,
                    tail,
                );
                lemma_grows_trans(g, walk.1, out.2, fields_visited(*fields), tags_visited(*more));
            }
        },
    }
}

/// Running the switch over the constructors of a union walks the fields of
/// the constructor that the tag id chooses, and then goes on with `tail`.
pub proof fn lemma_run_tag_branches<'a>(
    env: Env<'a>,
    g: Gen<'a>,
    ctx: Context<'a>,
    union_layout: UnionLayout<'a>,
    rest: Tags<'a>,
    next_id: u16,
    null_id: Option<u16>,
    structure: Symbol,
    tail: Stmt<'a>,
    tag: int,
    st: State,
    joins: Map<JoinPointId, JoinPoint<'a>>,
    fuel: nat,
    later: Seq<Specialization<'a>>,
) -> (st2: State)
    requires
        keys_unique(g.specs),
        tags_resolvable(ctx, rest),
        tags_indexable(rest),
        next_id + rest.len() + null_pending(null_id, next_id) <= MAX_TAGS,
        emit_tag_branches(
            env,
            g,
            ctx,
            union_layout,
            rest,
            next_id,
            null_id,
            structure,
            tail,
        ).2.idents.len() <= usize::MAX,
        extends(
            emit_tag_branches(
                env,
                g,
                ctx,
                union_layout,
                rest,
                next_id,
                null_id,
                structure,
                tail,
            ).2.specs,
            later,
        ),
        known(env, g, structure),
        known(env, g, Symbol::spec_arg_2()),
    ensures
        ({
            let out = emit_tag_branches(
                env,
                g,
                ctx,
                union_layout,
                rest,
                next_id,
                null_id,
                structure,
                tail,
            );
            let chosen = chosen_constructor(rest, next_id, null_id, tag);
            &&& run_switch(out.0, out.1, tag, st, joins, fuel) == run(tail, st2, joins, fuel)
            &&& st2.trace == st.trace + field_calls(
                later,
                ctx,
                FieldSource::Constructor(union_layout, chosen.0),
                chosen.1,
                0,
                lookup(st.env, structure),
                lookup(st.env, Symbol::spec_arg_2()),
            )
            &&& forall|s: Symbol| known(env, g, s) ==> lookup(st2.env, s) == lookup(st.env, s)
        }),
    decreases rest,
{
    let out = emit_tag_branches(
        env,
        g,
        ctx,
        union_layout,
        rest,
        next_id,
        null_id,
        structure,
        tail,
    );
    match rest {
        List::Nil => {
            assert(st.trace + Seq::<Event>::empty() =~= st.trace);
            st
        },
        List::Cons(fields, more) => {
            let id = skip_null(next_id, null_id);
            let source = FieldSource::Constructor(union_layout, id);
            let walk = emit_fields(env, g, ctx, source, *fields, 0, structure, tail);
            lemma_fields_shape(env, g, ctx, source, *fields, 0, structure, tail);
            lemma_fields_idents(env, g, ctx, source, *fields, 0, structure, tail);
            if *more is Nil {
                lemma_run_fields(
                    env,
                    g,
                    ctx,
                    source,
                    *fields,
                    0,
                    structure,
                    tail,
                    st,
                    joins,
                    fuel,
                    later,
                )
            } else {
                let next = (id + 1) as u16;
                lemma_tag_branches_grow(
                    env,
                    walk.1,
                    ctx,
                    union_layout,
                    *more,
                    next,
                    null_id,
                    structure,
                    tail,
                );
                if id == tag {
                    lemma_extends_grown(walk.1, out.2, tags_visited(*more), later);
                    lemma_run_fields(
                        env,
                        g,
                        ctx,
                        source,
                        *fields,
                        0,
                        structure,
                        tail,
                        st,
                        joins,
                        fuel,
                        later,
                    )
                } else {
                    lemma_run_tag_branches(
                        env,
                        walk.1,
                        ctx,
                        union_layout,
                        *more,
                        next,
                        null_id,
                        structure,
                        tail,
                        tag,
                        st,
                        joins,
                        fuel,
                        later,
                    )
                }
            }
        },
    }
}

/// Running the fields phase of a union walks the fields of the constructor
/// that the tag id chooses, and then goes on with `tail`.
pub proof fn lemma_run_union_fields<'a>(
    env: Env<'a>,
    g: Gen<'a>,
    ctx: Context<'a>,
    union_layout: UnionLayout<'a>,
    tags: Tags<'a>,
    null_id: Option<u16>,
    structure: Symbol,
    tag_id_sym: Symbol,
    tail: Stmt<'a>,
    st: State,
    joins: Map<JoinPointId, JoinPoint<'a>>,
    fuel: nat,
    later: Seq<Specialization<'a>>,
) -> (st2: State)
    requires
        keys_unique(g.specs),
        tags_resolvable(ctx, tags),
        tags_indexable(tags),
        tags.len() + null_pending(null_id, 0) <= MAX_TAGS,
        emit_union_fields(
            env,
            g,
            ctx,
            union_layout,
            tags,
            null_id,
            structure,
            tag_id_sym,
            tail,
        ).1.idents.len() <= usize::MAX,
        extends(
            emit_union_fields(
                env,
                g,
                ctx,
                union_layout,
                tags,
                null_id,
                structure,
                tag_id_sym,
                tail,
            ).1.specs,
            later,
        ),
        known(env, g, structure),
        known(env, g, Symbol::spec_arg_2()),
    ensures
        ({
            let out = emit_union_fields(
                env,
                g,
                ctx,
                union_layout,
                tags,
                null_id,
                structure,
                tag_id_sym,
                tail,
            );
            let chosen = chosen_constructor(tags, 0, null_id, number(lookup(st.env, tag_id_sym)));
            &&& run(out.0, st, joins, fuel) == run(tail, st2, joins, fuel)
            &&& st2.trace == st.trace + field_calls(
                later,
                ctx,
                FieldSource::Constructor(union_layout, chosen.0),
                chosen.1,
                0,
                lookup(st.env, structure),
                lookup(st.env, Symbol::spec_arg_2()),
            )
            &&& forall|s: Symbol| known(env, g, s) ==> lookup(st2.env, s) == lookup(st.env, s)
            &&& grows_by(g, out.1, tags_visited(tags))
            &&& g.idents.len() <= out.1.idents.len()
        }),
{
    if tags is Nil {
        assert(st.trace + Seq::<Event>::empty() =~= st.trace);
        lemma_grows_refl(g, g);
        st
    } else {
        lemma_tag_branches_grow(env, g, ctx, union_layout, tags, 0, null_id, structure, tail);
        reveal_with_fuel(run, 2);
        lemma_run_tag_branches(
            env,
            g,
            ctx,
            union_layout,
            tags,
            0,
            null_id,
            structure,
            tail,
            number(lookup(st.env, tag_id_sym)),
            st,
            joins,
            fuel,
            later,
        )
    }
}

/// What the statement for a union value does to counters, in order.
///
/// The value is taken to be the constructor that its tag id chooses. For a
/// union on the stack, the helpers of the fields of that constructor are
/// called. For a heap union, nothing happens where the tag id is the null
/// id; otherwise the counter of the block is changed, after the fields
/// under `Dec` and before them under `Inc`. Under `DecRef` no helper is
/// called.
pub open spec fn union_events<'a>(
    env: Env<'a>,
    specs: Seq<Specialization<'a>>,
    ctx: Context<'a>,
    union_layout: UnionLayout<'a>,
    value: Value,
    amount: Value,
) -> Seq<Event> {
    let tag = value->Variant_0;
    let pointer = value->Variant_1;
    let chosen = chosen_constructor(union_tags(union_layout), 0, union_layout.spec_null_id(), tag);
    let calls = children_calls(
        specs,
        enter_union(ctx, union_layout),
        FieldSource::Constructor(union_layout, chosen.0),
        chosen.1,
        value,
        amount,
    );
    let count = seq![
        count_event(
            ctx.op,
            amount,
            slot_of(env, pointer, union_layout.spec_stores_tag_id_in_pointer(env.ptr_size)),
            union_layout.spec_allocation_alignment_bytes(env.ptr_size),
        ),
    ];
    if union_layout is NonRecursive {
        calls
    } else if union_layout.spec_null_id() matches Some(id) && id == tag {
        Seq::empty()
    } else if ctx.op is Inc {
        count + calls
    } else {
        calls + count
    }
}

/// What running the statement for a union value does.
pub proof fn law_union_run<'a>(
    env: Env<'a>,
    g: Gen<'a>,
    ctx: Context<'a>,
    union_layout: UnionLayout<'a>,
    structure: Symbol,
    st: State,
    joins: Map<JoinPointId, JoinPoint<'a>>,
    fuel: nat,
    later: Seq<Specialization<'a>>,
)
    requires
        keys_unique(g.specs),
        union_layout.wf(),
        !(ctx.op is DecRef) && union_layout is NonRecursive ==> tags_resolvable(
            ctx,
            union_tags(union_layout),
        ),
        emit_tag_union(env, g, ctx, union_layout, structure).1.idents.len() <= usize::MAX,
        extends(emit_tag_union(env, g, ctx, union_layout, structure).1.specs, later),
        known(env, g, structure),
        known(env, g, Symbol::spec_arg_2()),
        leaves_freely(ctx.op, joins),
        lookup(st.env, structure) is Variant,
    ensures
        ({
            let out = run(emit_tag_union(env, g, ctx, union_layout, structure).0, st, joins, fuel);
            &&& out.1 == leaves(ctx.op)
            &&& out.0.trace == st.trace + union_events(
                env,
                later,
                ctx,
                union_layout,
                lookup(st.env, structure),
                lookup(st.env, Symbol::spec_arg_2()),
            )
        }),
{
    let value = lookup(st.env, structure);
    let amount = lookup(st.env, Symbol::spec_arg_2());
    let tag = value->Variant_0;
    let pointer = value->Variant_1;
    let inner = enter_union(ctx, union_layout);
    let op = ctx.op;
    let tags = union_tags(union_layout);
    let null_id = union_layout.spec_null_id();
    let stmt = emit_tag_union(env, g, ctx, union_layout, structure);
    let chosen = chosen_constructor(tags, 0, null_id, tag);
    let source = FieldSource::Constructor(union_layout, chosen.0);
    let calls = children_calls(later, inner, source, chosen.1, value, amount);
    let alignment = union_layout.spec_allocation_alignment_bytes(env.ptr_size);
    let mask = union_layout.spec_stores_tag_id_in_pointer(env.ptr_size);
    let count = count_event(op, amount, slot_of(env, pointer, mask), alignment);

    let (tag_id_sym, g1) = mint(env, g, "tag_id");
    let (ret, g2) = emit_return(env, g1, op);
    let st1 = State { env: st.env.insert(tag_id_sym, Value::Int(tag)), trace: st.trace };
    let rest = stmt.0->Let_3;
    assert(run(stmt.0, st, joins, fuel) == run(*rest, st1, joins, fuel)) by {
        reveal_with_fuel(run, 2);
    }
    assert(tags_indexable(tags) && tags.len() + null_pending(null_id, 0) <= MAX_TAGS) by {
        reveal_with_fuel(tags_indexable, 3);
        reveal_with_fuel(List::len, 3);
    }
    if !(union_layout is NonRecursive) {
        lemma_tags_resolvable_in_union(inner, tags);
    }
    lemma_grows_refl(g, g2);
    assert(st.trace + Seq::<Event>::empty() =~= st.trace);

    if union_layout is NonRecursive {
        if op is DecRef {
            lemma_run_return(env, g1, op, st1, joins, fuel);
        } else {
            let st2 = lemma_run_union_fields(
                env,
                g2,
                inner,
                union_layout,
                tags,
                null_id,
                structure,
                tag_id_sym,
                ret,
                st1,
                joins,
                fuel,
                later,
            );
            lemma_run_return(env, g1, op, st2, joins, fuel);
        }
    } else {
        let (rc_ptr, g3) = mint(env, g2, "rc_ptr");
        lemma_grows_refl(g, g3);
        let is_null = null_id matches Some(id) && id == tag;
        // The statement that runs where the value is not null.
        let heap: (Stmt<'a>, Gen<'a>) = match op {
            HelperOp::DecRef(_) => emit_outer(
                env,
                g3,
                op,
                structure,
                rc_ptr,
                mask,
                alignment,
                ret,
            ),
            HelperOp::Dec => {
                let outer = emit_outer(env, g3, op, structure, rc_ptr, mask, alignment, ret);
                emit_union_fields(
                    env,
                    outer.1,
                    inner,
                    union_layout,
                    tags,
                    null_id,
                    structure,
                    tag_id_sym,
                    outer.0,
                )
            },
            HelperOp::Inc => {
                let fields = emit_union_fields(
                    env,
                    g3,
                    inner,
                    union_layout,
                    tags,
                    null_id,
                    structure,
                    tag_id_sym,
                    ret,
                );
                emit_outer(env, fields.1, op, structure, rc_ptr, mask, alignment, fields.0)
            },
        };
        // Growth of the registry and of the identifier table up to `heap`.
        match op {
            HelperOp::DecRef(_) => {
                lemma_grows_refl(g, heap.1);
            },
            HelperOp::Dec => {
                let outer = emit_outer(env, g3, op, structure, rc_ptr, mask, alignment, ret);
                lemma_grows_refl(g, outer.1);
                lemma_tag_branches_grow(
                    env,
                    outer.1,
                    inner,
                    union_layout,
                    tags,
                    0,
                    null_id,
                    structure,
                    outer.0,
                );
                lemma_grows_trans(g, outer.1, heap.1, 0, tags_visited(tags));
            },
            HelperOp::Inc => {
                lemma_tag_branches_grow(
                    env,
                    g3,
                    inner,
                    union_layout,
                    tags,
                    0,
                    null_id,
                    structure,
                    ret,
                );
                let fields = emit_union_fields(
                    env,
                    g3,
                    inner,
                    union_layout,
                    tags,
                    null_id,
                    structure,
                    tag_id_sym,
                    ret,
                );
                lemma_grows_trans(g, g3, fields.1, 0, tags_visited(tags));
                lemma_grows_refl(fields.1, heap.1);
                lemma_grows_trans(g, fields.1, heap.1, tags_visited(tags), 0);
            },
        }
        assert(g3.idents.len() <= heap.1.idents.len() <= stmt.1.idents.len());
        assert(grows_by(heap.1, stmt.1, 0)) by {
            if null_id is Some {
                lemma_grows_refl(heap.1, stmt.1);
            } else {
                lemma_grows_refl(heap.1, heap.1);
            }
        }
        lemma_extends_grown(heap.1, stmt.1, 0, later);

        if is_null {
            let null_ret = emit_return(env, heap.1, op);
            assert(run(*rest, st1, joins, fuel) == run(null_ret.0, st1, joins, fuel)) by {
                reveal_with_fuel(run, 5);
                reveal_with_fuel(run_switch, 5);
            }
            lemma_run_return(env, heap.1, op, st1, joins, fuel);
        } else {
            assert(run(*rest, st1, joins, fuel) == run(heap.0, st1, joins, fuel)) by {
                reveal_with_fuel(run, 5);
                reveal_with_fuel(run_switch, 5);
            }
            match op {
                HelperOp::DecRef(_) => {
                    let st2 = lemma_run_outer(
                        env,
                        g3,
                        op,
                        structure,
                        rc_ptr,
                        mask,
                        alignment,
                        ret,
                        st1,
                        joins,
                        fuel,
                    );
                    lemma_run_return(env, g1, op, st2, joins, fuel);
                    assert(st2.trace =~= st.trace + (calls + seq![count]));
                },
                HelperOp::Dec => {
                    let outer = emit_outer(env, g3, op, structure, rc_ptr, mask, alignment, ret);
                    let st2 = lemma_run_union_fields(
                        env,
                        outer.1,
                        inner,
                        union_layout,
                        tags,
                        null_id,
                        structure,
                        tag_id_sym,
                        outer.0,
                        st1,
                        joins,
                        fuel,
                        later,
                    );
                    let st3 = lemma_run_outer(
                        env,
                        g3,
                        op,
                        structure,
                        rc_ptr,
                        mask,
                        alignment,
                        ret,
                        st2,
                        joins,
                        fuel,
                    );
                    lemma_run_return(env, g1, op, st3, joins, fuel);
                    assert(st3.trace =~= st.trace + (calls + seq![count]));
                },
                HelperOp::Inc => {
                    let fields = emit_union_fields(
                        env,
                        g3,
                        inner,
                        union_layout,
                        tags,
                        null_id,
                        structure,
                        tag_id_sym,
                        ret,
                    );
                    lemma_extends_grown(fields.1, heap.1, 0, later);
                    let st2 = lemma_run_outer(
                        env,
                        fields.1,
                        op,
                        structure,
                        rc_ptr,
                        mask,
                        alignment,
                        fields.0,
                        st1,
                        joins,
                        fuel,
                    );
                    let st3 = lemma_run_union_fields(
                        env,
                        g3,
                        inner,
                        union_layout,
                        tags,
                        null_id,
                        structure,
                        tag_id_sym,
                        ret,
                        st2,
                        joins,
                        fuel,
                        later,
                    );
                    lemma_run_return(env, g1, op, st3, joins, fuel);
                    assert(st3.trace =~= st.trace + (seq![count] + calls));
                },
            }
        }
    }
}

/// The helper calls that the loop over a list makes for the elements
/// numbered `from` up to `len`, stored `size` bytes apart from `base` on:
/// one for each, on what is stored at its address, in storage order.
pub open spec fn elem_calls<'a>(
    specs: Seq<Specialization<'a>>,
    ctx: Context<'a>,
    elem_layout: Layout<'a>,
    base: int,
    size: int,
    from: int,
    len: int,
    amount: Value,
) -> Seq<Event>
    decreases len - from,
{
    if from >= len {
        Seq::empty()
    } else {
        seq![call_event(specs, ctx, elem_layout, Value::Stored(base + from * size), amount)]
            + elem_calls(specs, ctx, elem_layout, base, size, from + 1, len, amount)
    }
}

/// The join point that the loop over the elements of a list declares.
pub open spec fn elems_loop<'a>(
    env: Env<'a>,
    g: Gen<'a>,
    ctx: Context<'a>,
    elem_layout: Layout<'a>,
    ret_layout: Layout<'a>,
    box_union_layout: UnionLayout<'a>,
    length: Symbol,
    elements: Symbol,
    following: Stmt<'a>,
) -> Stmt<'a> {
    *emit_list_elems(
        env,
        g,
        ctx,
        elem_layout,
        ret_layout,
        box_union_layout,
        length,
        elements,
        following,
    ).0->Let_3->Let_3->Let_3->Let_3
}

/// The join points in scope inside the loop over the elements of a list.
pub open spec fn with_elems_loop<'a>(
    joins: Map<JoinPointId, JoinPoint<'a>>,
    declared: Stmt<'a>,
) -> Map<JoinPointId, JoinPoint<'a>> {
    joins.insert(
        declared->Join_id,
        JoinPoint { parameters: *declared->Join_parameters, body: *declared->Join_body },
    )
}

/// From the element numbered `i` on, the loop calls the helper on each
/// element up to the last, and then goes on with `following`.
proof fn lemma_run_loop<'a>(
    env: Env<'a>,
    g: Gen<'a>,
    ctx: Context<'a>,
    elem_layout: Layout<'a>,
    ret_layout: Layout<'a>,
    box_union_layout: UnionLayout<'a>,
    length: Symbol,
    elements: Symbol,
    following: Stmt<'a>,
    base: int,
    n: int,
    i: int,
    st: State,
    joins: Map<JoinPointId, JoinPoint<'a>>,
    fuel: nat,
    later: Seq<Specialization<'a>>,
) -> (st2: State)
    requires
        keys_unique(g.specs),
        resolve_layout(ctx, elem_layout) is Some,
        emit_list_elems(
            env,
            g,
            ctx,
            elem_layout,
            ret_layout,
            box_union_layout,
            length,
            elements,
            following,
        ).1.idents.len() <= usize::MAX,
        extends(
            emit_list_elems(
                env,
                g,
                ctx,
                elem_layout,
                ret_layout,
                box_union_layout,
                length,
                elements,
                following,
            ).1.specs,
            later,
        ),
        0 < elem_layout.spec_stack_size(env.ptr_size) <= u32::MAX,
        0 <= i <= n,
        fuel >= n - i,
        known(env, g, Symbol::spec_arg_2()),
        ({
            let declared = elems_loop(
                env,
                g,
                ctx,
                elem_layout,
                ret_layout,
                box_union_layout,
                length,
                elements,
                following,
            );
            let size = elem_layout.spec_stack_size(env.ptr_size) as int;
            let first = g.idents.len();
            &&& joins.contains_key(declared->Join_id)
            &&& joins[declared->Join_id] == JoinPoint {
                parameters: *declared->Join_parameters,
                body: *declared->Join_body,
            }
            &&& lookup(st.env, Symbol { module_id: env.home, ident_id: (first + 1) as usize })
                == Value::Int(size)
            &&& lookup(st.env, Symbol { module_id: env.home, ident_id: (first + 3) as usize })
                == Value::Int(base + n * size)
            &&& lookup(st.env, Symbol { module_id: env.home, ident_id: (first + 5) as usize })
                == Value::Int(base + i * size)
        }),
    ensures
        ({
            let declared = elems_loop(
                env,
                g,
                ctx,
                elem_layout,
                ret_layout,
                box_union_layout,
                length,
                elements,
                following,
            );
            let size = elem_layout.spec_stack_size(env.ptr_size) as int;
            &&& run(*declared->Join_body, st, joins, fuel) == run(
                following,
                st2,
                joins,
                (fuel - (n - i)) as nat,
            )
            &&& st2.trace == st.trace + elem_calls(
                later,
                ctx,
                elem_layout,
                base,
                size,
                i,
                n,
                lookup(st.env, Symbol::spec_arg_2()),
            )
            &&& forall|s: Symbol| known(env, g, s) ==> lookup(st2.env, s) == lookup(st.env, s)
        }),
    decreases n - i,
{
    let (start, g1) = mint(env, g, "start");
    let (size_sym, g2) = mint(env, g1, "size");
    let (list_size, g3) = mint(env, g2, "list_size");
    let (end, g4) = mint(env, g3, "end");
    let (elems_loop_sym, g5) = mint(env, g4, "elems_loop");
    let (addr, g6) = mint(env, g5, "addr");
    let (box_ptr, g7) = mint(env, g6, "box");
    let (elem, g8) = mint(env, g7, "elem");
    let (mod_elem_unit, g9) = mint(env, g8, "mod_elem_unit");
    let layout = resolve_layout(ctx, elem_layout).unwrap();
    let named = helper_symbol(env, g9, ctx.op, layout);
    let (next_addr, g11) = mint(env, named.1, "next_addr");
    let (is_end, g12) = mint(env, g11, "is_end");
    let out = emit_list_elems(
        env,
        g,
        ctx,
        elem_layout,
        ret_layout,
        box_union_layout,
        length,
        elements,
        following,
    );
    assert(out.1 == g12);
    lemma_grows_refl(g, g9);
    lemma_helper_symbol_grows(env, g9, ctx.op, layout);
    lemma_grows_refl(named.1, g12);
    lemma_extends_grown(named.1, g12, 0, later);
    lemma_find_stable(named.1.specs, later, ctx.op, layout, 0);
    assert(named.0 == helper_of(later, ctx, elem_layout));

    let declared = elems_loop(
        env,
        g,
        ctx,
        elem_layout,
        ret_layout,
        box_union_layout,
        length,
        elements,
        following,
    );
    let body = *declared->Join_body;
    let size = elem_layout.spec_stack_size(env.ptr_size) as int;
    let amount = lookup(st.env, Symbol::spec_arg_2());
    let here = base + i * size;
    if i == n {
        let st2 = State { env: st.env.insert(is_end, Value::Int(1)), trace: st.trace };
        assert(run(body, st, joins, fuel) == run(following, st2, joins, fuel)) by {
            reveal_with_fuel(run, 4);
            reveal_with_fuel(run_switch, 4);
            reveal_with_fuel(List::get, 3);
        }
        assert(st.trace + Seq::<Event>::empty() =~= st.trace);
        st2
    } else {
        assert(here < base + n * size) by (nonlinear_arith)
            requires
                here == base + i * size,
                i < n,
                size > 0,
        ;
        assert(here + size == base + (i + 1) * size) by (nonlinear_arith)
            requires
                here == base + i * size,
        ;
        let value = Value::Stored(here);
        let event = call_event(later, ctx, elem_layout, value, amount);
        let e1 = st.env.insert(is_end, Value::Int(0)).insert(box_ptr, Value::Int(here)).insert(
            elem,
            value,
        );
        let e2 = e1.insert(mod_elem_unit, Value::Unit).insert(next_addr, Value::Int(here + size));
        let st1 = State {
            env: e2.insert(addr, Value::Int(here + size)),
            trace: st.trace.push(event),
        };
        assert(run(body, st, joins, fuel) == run(body, st1, joins, (fuel - 1) as nat)) by {
            reveal_with_fuel(run, 10);
            reveal_with_fuel(run_switch, 10);
            reveal_with_fuel(List::get, 3);
            reveal_with_fuel(argument_values, 3);
            reveal_with_fuel(bind_parameters, 3);
            let args = helper_args(ctx.op, elem);
            if ctx.op is Inc {
                assert(argument_values(e1, args) =~= seq![value, amount]);
            } else {
                assert(argument_values(e1, args) =~= seq![value]);
            }
        }
        let st2 = lemma_run_loop(
            env,
            g,
            ctx,
            elem_layout,
            ret_layout,
            box_union_layout,
            length,
            elements,
            following,
            base,
            n,
            i + 1,
            st1,
            joins,
            (fuel - 1) as nat,
            later,
        );
        assert(st2.trace =~= st.trace + elem_calls(
            later,
            ctx,
            elem_layout,
            base,
            size,
            i,
            n,
            amount,
        ));
        st2
    }
}

/// Running the loop over the elements of a list of `n` elements calls the
/// helper of the element layout on each element, in storage order, and then
/// goes on with `following`, inside the join point of the loop. The loop
/// jumps `n + 1` times.
pub proof fn lemma_run_list_elems<'a>(
    env: Env<'a>,
    g: Gen<'a>,
    ctx: Context<'a>,
    elem_layout: Layout<'a>,
    ret_layout: Layout<'a>,
    box_union_layout: UnionLayout<'a>,
    length: Symbol,
    elements: Symbol,
    following: Stmt<'a>,
    st: State,
    joins: Map<JoinPointId, JoinPoint<'a>>,
    fuel: nat,
    later: Seq<Specialization<'a>>,
) -> (st2: State)
    requires
        keys_unique(g.specs),
        resolve_layout(ctx, elem_layout) is Some,
        emit_list_elems(
            env,
            g,
            ctx,
            elem_layout,
            ret_layout,
            box_union_layout,
            length,
            elements,
            following,
        ).1.idents.len() <= usize::MAX,
        extends(
            emit_list_elems(
                env,
                g,
                ctx,
                elem_layout,
                ret_layout,
                box_union_layout,
                length,
                elements,
                following,
            ).1.specs,
            later,
        ),
        0 < elem_layout.spec_stack_size(env.ptr_size) <= u32::MAX,
        known(env, g, length),
        known(env, g, elements),
        known(env, g, Symbol::spec_arg_2()),
        number(lookup(st.env, length)) >= 0,
        fuel > number(lookup(st.env, length)),
    ensures
        ({
            let out = emit_list_elems(
                env,
                g,
                ctx,
                elem_layout,
                ret_layout,
                box_union_layout,
                length,
                elements,
                following,
            );
            let declared = elems_loop(
                env,
                g,
                ctx,
                elem_layout,
                ret_layout,
                box_union_layout,
                length,
                elements,
                following,
            );
            let n = number(lookup(st.env, length));
            &&& declared is Join
            &&& run(out.0, st, joins, fuel) == run(
                following,
                st2,
                with_elems_loop(joins, declared),
                (fuel - n - 1) as nat,
            )
            &&& st2.trace == st.trace + elem_calls(
                later,
                ctx,
                elem_layout,
                number(lookup(st.env, elements)),
                elem_layout.spec_stack_size(env.ptr_size) as int,
                0,
                n,
                lookup(st.env, Symbol::spec_arg_2()),
            )
            &&& forall|s: Symbol| known(env, g, s) ==> lookup(st2.env, s) == lookup(st.env, s)
        }),
{
    let (start, g1) = mint(env, g, "start");
    let (size_sym, g2) = mint(env, g1, "size");
    let (list_size, g3) = mint(env, g2, "list_size");
    let (end, g4) = mint(env, g3, "end");
    let (elems_loop_sym, g5) = mint(env, g4, "elems_loop");
    let (addr, g6) = mint(env, g5, "addr");
    let (box_ptr, g7) = mint(env, g6, "box");
    let (elem, g8) = mint(env, g7, "elem");
    let (mod_elem_unit, g9) = mint(env, g8, "mod_elem_unit");
    let layout = resolve_layout(ctx, elem_layout).unwrap();
    let named = helper_symbol(env, g9, ctx.op, layout);
    lemma_grows_refl(g, g9);
    lemma_helper_symbol_grows(env, g9, ctx.op, layout);
    let out = emit_list_elems(
        env,
        g,
        ctx,
        elem_layout,
        ret_layout,
        box_union_layout,
        length,
        elements,
        following,
    );
    let declared = elems_loop(
        env,
        g,
        ctx,
        elem_layout,
        ret_layout,
        box_union_layout,
        length,
        elements,
        following,
    );
    let joins2 = with_elems_loop(joins, declared);
    let n = number(lookup(st.env, length));
    let base = number(lookup(st.env, elements));
    let size = elem_layout.spec_stack_size(env.ptr_size) as int;
    let e4 = st.env.insert(start, Value::Int(base)).insert(size_sym, Value::Int(size)).insert(
        list_size,
        Value::Int(n * size),
    ).insert(end, Value::Int(base + n * size));
    let st0 = State { env: e4.insert(addr, Value::Int(base)), trace: st.trace };
    assert(base + 0 * size == base) by (nonlinear_arith);
    assert(run(out.0, st, joins, fuel) == run(
        *declared->Join_body,
        st0,
        joins2,
        (fuel - 1) as nat,
    )) by {
        reveal_with_fuel(run, 8);
        reveal_with_fuel(List::get, 3);
        reveal_with_fuel(bind_parameters, 3);
    }
    lemma_run_loop(
        env,
        g,
        ctx,
        elem_layout,
        ret_layout,
        box_union_layout,
        length,
        elements,
        following,
        base,
        n,
        0,
        st0,
        joins2,
        (fuel - 1) as nat,
        later,
    )
}

/// What the statement for a list value does to counters, in order: nothing
/// for an empty list; otherwise the helper of the element layout is called
/// on each element, where elements are visited, and then the counter of the
/// list is changed.
pub open spec fn list_events<'a>(
    env: Env<'a>,
    specs: Seq<Specialization<'a>>,
    ctx: Context<'a>,
    layout: Layout<'a>,
    elem_layout: Layout<'a>,
    value: Value,
    amount: Value,
) -> Seq<Event> {
    let base = value->Pair_0;
    let len = value->Pair_1;
    if len == 0 {
        Seq::empty()
    } else {
        (if walks_elements(ctx.op, elem_layout) {
            elem_calls(
                specs,
                ctx,
                elem_layout,
                base,
                elem_layout.spec_stack_size(env.ptr_size) as int,
                0,
                len,
                amount,
            )
        } else {
            Seq::empty()
        }) + seq![
            count_event(
                ctx.op,
                amount,
                slot_of(env, base, false),
                layout.spec_allocation_alignment_bytes(env.ptr_size),
            ),
        ]
    }
}

/// What running the statement for a list does. Where elements are
/// visited, the loop jumps once more than the list has elements.
pub proof fn law_list_run<'a>(
    env: Env<'a>,
    g: Gen<'a>,
    ctx: Context<'a>,
    layout: Layout<'a>,
    elem_layout: Layout<'a>,
    structure: Symbol,
    st: State,
    joins: Map<JoinPointId, JoinPoint<'a>>,
    fuel: nat,
    later: Seq<Specialization<'a>>,
)
    requires
        keys_unique(g.specs),
        emit_list(env, g, ctx, layout, elem_layout, structure).1.idents.len() <= usize::MAX,
        extends(emit_list(env, g, ctx, layout, elem_layout, structure).1.specs, later),
        known(env, g, structure),
        known(env, g, Symbol::spec_arg_2()),
        leaves_freely(ctx.op, joins),
        lookup(st.env, structure) is Pair,
        walks_elements(ctx.op, elem_layout) ==> {
            &&& resolve_layout(ctx, elem_layout) is Some
            &&& 0 < elem_layout.spec_stack_size(env.ptr_size) <= u32::MAX
            &&& 0 <= lookup(st.env, structure)->Pair_1 < fuel
        },
    ensures
        ({
            let out = run(
                emit_list(env, g, ctx, layout, elem_layout, structure).0,
                st,
                joins,
                fuel,
            );
            &&& out.1 == leaves(ctx.op)
            &&& out.0.trace == st.trace + list_events(
                env,
                later,
                ctx,
                layout,
                elem_layout,
                lookup(st.env, structure),
                lookup(st.env, Symbol::spec_arg_2()),
            )
        }),
{
    let value = lookup(st.env, structure);
    let amount = lookup(st.env, Symbol::spec_arg_2());
    let base = value->Pair_0;
    let n = value->Pair_1;
    let op = ctx.op;
    let box_union_layout = box_union(elem_layout);
    let (len, g1) = mint(env, g, "len");
    let (zero, g2) = mint(env, g1, "zero");
    let (is_empty, g3) = mint(env, g2, "is_empty");
    let (elements, g4) = mint(env, g3, "elements");
    let (rc_ptr, g5) = mint(env, g4, "rc_ptr");
    let alignment = layout.spec_allocation_alignment_bytes(env.ptr_size);
    let (ret, g6) = emit_return(env, g5, op);
    let (outer, g7) = emit_outer(env, g6, op, elements, rc_ptr, false, alignment, ret);
    let unit = spec_layout_unit();
    let (body, g8) = if walks_elements(op, elem_layout) {
        emit_list_elems(env, g7, ctx, elem_layout, unit, box_union_layout, len, elements, outer)
    } else {
        (outer, g7)
    };
    let (empty, g9) = emit_return(env, g8, op);
    let stmt = emit_list(env, g, ctx, layout, elem_layout, structure);
    assert(stmt.1 == g9);
    lemma_grows_refl(g, g7);
    if walks_elements(op, elem_layout) {
        lemma_list_elems_shape(
            env,
            g7,
            ctx,
            elem_layout,
            unit,
            box_union_layout,
            len,
            elements,
            outer,
        );
        lemma_run_list_elems_idents(
            env,
            g7,
            ctx,
            elem_layout,
            unit,
            box_union_layout,
            len,
            elements,
            outer,
        );
    } else {
        lemma_grows_refl(g7, g8);
    }
    lemma_grows_refl(g8, g9);
    lemma_extends_grown(g8, g9, 0, later);

    let empty_flag = if n == 0 {
        1int
    } else {
        0int
    };
    let e3 = st.env.insert(len, Value::Int(n)).insert(zero, Value::Int(0)).insert(
        is_empty,
        Value::Int(empty_flag),
    );
    let st3 = State { env: e3, trace: st.trace };
    assert(st.trace + Seq::<Event>::empty() =~= st.trace);
    if n == 0 {
        assert(run(stmt.0, st, joins, fuel) == run(empty, st3, joins, fuel)) by {
            reveal_with_fuel(run, 10);
            reveal_with_fuel(run_switch, 10);
            reveal_with_fuel(List::get, 3);
        }
        lemma_run_return(env, g8, op, st3, joins, fuel);
    } else {
        let st4 = State { env: e3.insert(elements, Value::Int(base)), trace: st.trace };
        assert(run(stmt.0, st, joins, fuel) == run(body, st4, joins, fuel)) by {
            reveal_with_fuel(run, 10);
            reveal_with_fuel(run_switch, 10);
            reveal_with_fuel(List::get, 3);
        }
        let count = count_event(op, amount, slot_of(env, base, false), alignment);
        if walks_elements(op, elem_layout) {
            let declared = elems_loop(
                env,
                g7,
                ctx,
                elem_layout,
                unit,
                box_union_layout,
                len,
                elements,
                outer,
            );
            let joins2 = with_elems_loop(joins, declared);
            let fuel2 = (fuel - n - 1) as nat;
            let st5 = lemma_run_list_elems(
                env,
                g7,
                ctx,
                elem_layout,
                unit,
                box_union_layout,
                len,
                elements,
                outer,
                st4,
                joins,
                fuel,
                later,
            );
            let st6 = lemma_run_outer(
                env,
                g6,
                op,
                elements,
                rc_ptr,
                false,
                alignment,
                ret,
                st5,
                joins2,
                fuel2,
            );
            lemma_run_return(env, g5, op, st6, joins2, fuel2);
            let calls = elem_calls(
                later,
                ctx,
                elem_layout,
                base,
                elem_layout.spec_stack_size(env.ptr_size) as int,
                0,
                n,
                amount,
            );
            assert(st6.trace =~= st.trace + (calls + seq![count]));
        } else {
            let st5 = lemma_run_outer(
                env,
                g6,
                op,
                elements,
                rc_ptr,
                false,
                alignment,
                ret,
                st4,
                joins,
                fuel,
            );
            lemma_run_return(env, g5, op, st5, joins, fuel);
            assert(st5.trace =~= st.trace + (Seq::<Event>::empty() + seq![count]));
        }
    }
}

/// The loop over the elements of a list only adds to the identifier table.
pub proof fn lemma_run_list_elems_idents<'a>(
    env: Env<'a>,
    g: Gen<'a>,
    ctx: Context<'a>,
    elem_layout: Layout<'a>,
    ret_layout: Layout<'a>,
    box_union_layout: UnionLayout<'a>,
    length: Symbol,
    elements: Symbol,
    following: Stmt<'a>,
)
    requires
        keys_unique(g.specs),
        resolve_layout(ctx, elem_layout) is Some,
    ensures
        g.idents.len() <= emit_list_elems(
            env,
            g,
            ctx,
            elem_layout,
            ret_layout,
            box_union_layout,
            length,
            elements,
            following,
        ).1.idents.len(),
{
    let g9 = mint(
        env,
        mint(
            env,
            mint(
                env,
                mint(
                    env,
                    mint(
                        env,
                        mint(
                            env,
                            mint(env, mint(env, mint(env, g, "start").1, "size").1, "list_size").1,
                            "end",
                        ).1,
                        "elems_loop",
                    ).1,
                    "addr",
                ).1,
                "box",
            ).1,
            "elem",
        ).1,
        "mod_elem_unit",
    ).1;
    lemma_grows_refl(g, g9);
    lemma_helper_symbol_grows(env, g9, ctx.op, resolve_layout(ctx, elem_layout).unwrap());
}

/// The children of a record or of a constructor that a walk visits: the
/// fields of `rest` that hold something counted, each with its layout and
/// its value, in index order.
pub open spec fn field_children<'a>(
    source: FieldSource<'a>,
    rest: Fields<'a>,
    index: u64,
    container: Value,
) -> Seq<(Layout<'a>, Value)>
    decreases rest,
{
    match rest {
        List::Nil => Seq::empty(),
        List::Cons(field, more) => (if field.spec_contains_refcounted() {
            seq![(field, field_value(source, container, index))]
        } else {
            Seq::empty()
        }) + field_children(source, *more, (index + 1) as u64, container),
    }
}

/// The elements of a list numbered `from` up to `len`, each with the
/// element layout, in storage order.
pub open spec fn elem_children<'a>(
    elem_layout: Layout<'a>,
    base: int,
    size: int,
    from: int,
    len: int,
) -> Seq<(Layout<'a>, Value)>
    decreases len - from,
{
    if from >= len {
        Seq::empty()
    } else {
        seq![(elem_layout, Value::Stored(base + from * size))] + elem_children(
            elem_layout,
            base,
            size,
            from + 1,
            len,
        )
    }
}

/// The children of `value` that own a count of their own and that `value`
/// owns in turn: the elements of a list that is not empty, where they are
/// counted heap blocks; the fields of a record that hold something counted;
/// the like fields of the constructor that a union value is, unless it is
/// null. Whatever the operation, these are the same.
pub open spec fn children<'a>(env: Env<'a>, layout: Layout<'a>, value: Value) -> Seq<
    (Layout<'a>, Value),
>
    decreases layout,
{
    match layout {
        Layout::Builtin(Builtin::List(elem)) => if value->Pair_1 != 0 && elem.spec_is_refcounted() {
            elem_children(
                *elem,
                value->Pair_0,
                elem.spec_stack_size(env.ptr_size) as int,
                0,
                value->Pair_1,
            )
        } else {
            Seq::empty()
        },
        Layout::Struct(fields) => field_children(FieldSource::Record(fields), *fields, 0, value),
        Layout::Union(union_layout) => {
            let chosen = chosen_constructor(
                union_tags(union_layout),
                0,
                union_layout.spec_null_id(),
                value->Variant_0,
            );
            if is_null(union_layout, value) {
                Seq::empty()
            } else {
                field_children(
                    FieldSource::Constructor(union_layout, chosen.0),
                    chosen.1,
                    0,
                    value,
                )
            }
        },
        Layout::LambdaSet(set) => children(env, *set.representation, value),
        _ => Seq::empty(),
    }
}

/// The union value is the null pointer of a heap union.
pub open spec fn is_null(union_layout: UnionLayout, value: Value) -> bool {
    !(union_layout is NonRecursive) && (union_layout.spec_null_id() matches Some(id) && id
        == value->Variant_0)
}

/// The heap block that `value` is, if it is one: the address of its counter
/// and the alignment of the block. A small string, an empty list and a null
/// pointer are none, nor is anything that lives on the stack. The tag bits
/// of a pointer are cleared exactly for a union that keeps its tag id in
/// the pointer. Whatever the operation, the block is the same.
pub open spec fn block<'a>(env: Env<'a>, layout: Layout<'a>, value: Value) -> Option<(int, u32)>
    decreases layout,
{
    match layout {
        Layout::Builtin(Builtin::Str) => if value->Pair_1 >= 0 {
            Some((slot_of(env, value->Pair_0, false), env.ptr_size))
        } else {
            None
        },
        Layout::Builtin(Builtin::List(_)) => if value->Pair_1 != 0 {
            Some(
                (
                    slot_of(env, value->Pair_0, false),
                    layout.spec_allocation_alignment_bytes(env.ptr_size),
                ),
            )
        } else {
            None
        },
        Layout::Union(union_layout) => if union_layout is NonRecursive || is_null(
            union_layout,
            value,
        ) {
            None
        } else {
            Some(
                (
                    slot_of(
                        env,
                        value->Variant_1,
                        union_layout.spec_stores_tag_id_in_pointer(env.ptr_size),
                    ),
                    union_layout.spec_allocation_alignment_bytes(env.ptr_size),
                ),
            )
        },
        Layout::LambdaSet(set) => block(env, *set.representation, value),
        _ => None,
    }
}

/// The context under which the helpers of the children of `layout` are
/// asked for.
pub open spec fn child_context<'a>(ctx: Context<'a>, layout: Layout<'a>) -> Context<'a>
    decreases layout,
{
    match layout {
        Layout::Union(union_layout) => enter_union(ctx, union_layout),
        Layout::LambdaSet(set) => child_context(ctx, *set.representation),
        _ => ctx,
    }
}

/// The calls of the helpers of `children`, in order.
pub open spec fn calls_of<'a>(
    specs: Seq<Specialization<'a>>,
    ctx: Context<'a>,
    children: Seq<(Layout<'a>, Value)>,
    amount: Value,
) -> Seq<Event> {
    Seq::new(
        children.len(),
        |i: int| call_event(specs, ctx, children[i].0, children[i].1, amount),
    )
}

/// What the statement for `layout` does to counters on `value`, in order.
///
/// The helper of each child is called, except under `DecRef`, and the
/// counter of the block that the value is, if it is one, is changed once.
/// The block comes after the children, except for a union under `Inc`.
pub open spec fn effects<'a>(
    env: Env<'a>,
    specs: Seq<Specialization<'a>>,
    ctx: Context<'a>,
    layout: Layout<'a>,
    value: Value,
    amount: Value,
) -> Seq<Event> {
    let calls = if ctx.op is DecRef {
        Seq::empty()
    } else {
        calls_of(specs, child_context(ctx, layout), children(env, layout, value), amount)
    };
    let count = match block(env, layout, value) {
        Some((slot, alignment)) => seq![count_event(ctx.op, amount, slot, alignment)],
        None => Seq::empty(),
    };
    if ctx.op is Inc && layout.runtime_layout() is Union {
        count + calls
    } else {
        calls + count
    }
}

/// The value has the form that values of the layout have at run time: a
/// string or a list is a pair of an address and a length, and the length
/// of a list is not negative; a union value has a tag id and a pointer.
pub open spec fn shaped(layout: Layout, value: Value) -> bool
    decreases layout,
{
    match layout {
        Layout::Builtin(Builtin::Str) => value is Pair,
        Layout::Builtin(Builtin::List(_)) => value is Pair && value->Pair_1 >= 0,
        Layout::Union(_) => value is Variant,
        Layout::LambdaSet(set) => shaped(*set.representation, value),
        _ => true,
    }
}

/// Number of elements of the value where it is a list, else 0.
pub open spec fn elements_of(layout: Layout, value: Value) -> int
    decreases layout,
{
    match layout {
        Layout::Builtin(Builtin::List(_)) => value->Pair_1,
        Layout::LambdaSet(set) => elements_of(*set.representation, value),
        _ => 0,
    }
}

proof fn lemma_calls_of_concat<'a>(
    specs: Seq<Specialization<'a>>,
    ctx: Context<'a>,
    a: Seq<(Layout<'a>, Value)>,
    b: Seq<(Layout<'a>, Value)>,
    amount: Value,
)
    ensures
        calls_of(specs, ctx, a + b, amount) == calls_of(specs, ctx, a, amount) + calls_of(
            specs,
            ctx,
            b,
            amount,
        ),
{
    assert(calls_of(specs, ctx, a + b, amount) =~= calls_of(specs, ctx, a, amount) + calls_of(
        specs,
        ctx,
        b,
        amount,
    ));
}

proof fn lemma_field_calls_of_children<'a>(
    specs: Seq<Specialization<'a>>,
    ctx: Context<'a>,
    source: FieldSource<'a>,
    rest: Fields<'a>,
    index: u64,
    container: Value,
    amount: Value,
)
    ensures
        field_calls(specs, ctx, source, rest, index, container, amount) == calls_of(
            specs,
            ctx,
            field_children(source, rest, index, container),
            amount,
        ),
    decreases rest,
{
    match rest {
        List::Nil => {
            assert(calls_of(specs, ctx, Seq::empty(), amount) =~= Seq::<Event>::empty());
        },
        List::Cons(field, more) => {
            let next = (index + 1) as u64;
            lemma_field_calls_of_children(specs, ctx, source, *more, next, container, amount);
            let head: Seq<(Layout<'a>, Value)> = if field.spec_contains_refcounted() {
                seq![(field, field_value(source, container, index))]
            } else {
                Seq::empty()
            };
            lemma_calls_of_concat(
                specs,
                ctx,
                head,
                field_children(source, *more, next, container),
                amount,
            );
            assert(calls_of(specs, ctx, head, amount) =~= (if field.spec_contains_refcounted() {
                seq![call_event(specs, ctx, field, field_value(source, container, index), amount)]
            } else {
                Seq::<Event>::empty()
            }));
        },
    }
}

proof fn lemma_elem_calls_of_children<'a>(
    specs: Seq<Specialization<'a>>,
    ctx: Context<'a>,
    elem_layout: Layout<'a>,
    base: int,
    size: int,
    from: int,
    len: int,
    amount: Value,
)
    ensures
        elem_calls(specs, ctx, elem_layout, base, size, from, len, amount) == calls_of(
            specs,
            ctx,
            elem_children(elem_layout, base, size, from, len),
            amount,
        ),
    decreases len - from,
{
    if from >= len {
        assert(calls_of(specs, ctx, Seq::empty(), amount) =~= Seq::<Event>::empty());
    } else {
        lemma_elem_calls_of_children(specs, ctx, elem_layout, base, size, from + 1, len, amount);
        let head = seq![(elem_layout, Value::Stored(base + from * size))];
        lemma_calls_of_concat(
            specs,
            ctx,
            head,
            elem_children(elem_layout, base, size, from + 1, len),
            amount,
        );
        assert(calls_of(specs, ctx, head, amount) =~= seq![
            call_event(specs, ctx, elem_layout, Value::Stored(base + from * size), amount),
        ]);
    }
}

/// Rounding up does not make smaller.
proof fn lemma_round_up_ge(width: nat, alignment: nat)
    ensures
        round_up_to_alignment(width, alignment) >= width,
{
    if alignment != 0 {
        assert(width % alignment < alignment) by (nonlinear_arith)
            requires
                alignment > 0,
        ;
    }
}

/// A counted heap block is at least a pointer on the stack.
proof fn lemma_refcounted_raw_size(layout: Layout, ptr_size: u32)
    requires
        layout.spec_is_refcounted(),
    ensures
        layout.raw_size(ptr_size) >= ptr_size,
    decreases layout,
{
    match layout {
        Layout::LambdaSet(set) => lemma_refcounted_raw_size(*set.representation, ptr_size),
        _ => {},
    }
}

/// A counted heap block takes up space where pointers do.
pub proof fn lemma_refcounted_size_positive(layout: Layout, ptr_size: u32)
    requires
        layout.spec_is_refcounted(),
        ptr_size > 0,
    ensures
        layout.spec_stack_size(ptr_size) > 0,
{
    lemma_refcounted_raw_size(layout, ptr_size);
    lemma_round_up_ge(layout.raw_size(ptr_size), layout.spec_alignment_bytes(ptr_size) as nat);
}

/// What running the statement for a layout does, whatever the layout: it
/// has the effects on counters that the layout and the value call for, in
/// the order that the operation calls for, and then leaves.
///
/// The table of identifiers is short enough for its indices, and the list,
/// where the value is one whose elements are visited, has fewer elements
/// than `fuel` allows jumps. `later` is any registry that holds what the
/// registry holds once the statement is emitted.
pub proof fn law_run<'a>(
    env: Env<'a>,
    g: Gen<'a>,
    ctx: Context<'a>,
    layout: Layout<'a>,
    structure: Symbol,
    st: State,
    joins: Map<JoinPointId, JoinPoint<'a>>,
    fuel: nat,
    later: Seq<Specialization<'a>>,
)
    requires
        keys_unique(g.specs),
        can_dispatch(env, ctx, layout),
        env.ptr_size > 0,
        emit_generic(env, g, ctx, layout, structure).1.idents.len() <= usize::MAX,
        extends(emit_generic(env, g, ctx, layout, structure).1.specs, later),
        known(env, g, structure),
        known(env, g, Symbol::spec_arg_2()),
        leaves_freely(ctx.op, joins),
        shaped(layout, lookup(st.env, structure)),
        elements_of(layout, lookup(st.env, structure)) < fuel,
    ensures
        ({
            let out = run(emit_generic(env, g, ctx, layout, structure).0, st, joins, fuel);
            &&& out.1 == leaves(ctx.op)
            &&& out.0.trace == st.trace + effects(
                env,
                later,
                ctx,
                layout,
                lookup(st.env, structure),
                lookup(st.env, Symbol::spec_arg_2()),
            )
        }),
    decreases layout,
{
    let value = lookup(st.env, structure);
    let amount = lookup(st.env, Symbol::spec_arg_2());
    let nothing = Seq::<Event>::empty();
    assert(calls_of(later, ctx, Seq::empty(), amount) =~= nothing);
    match layout {
        Layout::Builtin(Builtin::Str) => {
            law_string_run(env, g, ctx.op, structure, st, joins, fuel);
            let count = count_event(
                ctx.op,
                amount,
                slot_of(env, value->Pair_0, false),
                env.ptr_size,
            );
            assert(st.trace + (nothing + nothing) =~= st.trace);
            assert(st.trace + (nothing + seq![count]) =~= st.trace.push(count));
        },
        Layout::Builtin(Builtin::List(elem)) => {
            let size = elem.spec_stack_size(env.ptr_size) as int;
            if walks_elements(ctx.op, *elem) {
                lemma_refcounted_size_positive(*elem, env.ptr_size);
                lemma_elem_calls_of_children(
                    later,
                    ctx,
                    *elem,
                    value->Pair_0,
                    size,
                    0,
                    value->Pair_1,
                    amount,
                );
            }
            law_list_run(env, g, ctx, layout, *elem, structure, st, joins, fuel, later);
            assert(nothing + nothing =~= nothing);
        },
        Layout::Struct(fields) => {
            law_struct_run(env, g, ctx, *fields, structure, st, joins, fuel, later);
            lemma_field_calls_of_children(
                later,
                ctx,
                FieldSource::Record(fields),
                *fields,
                0,
                value,
                amount,
            );
            let calls = children_calls(
                later,
                ctx,
                FieldSource::Record(fields),
                *fields,
                value,
                amount,
            );
            assert(calls + nothing =~= calls);
        },
        Layout::Union(union_layout) => {
            law_union_run(env, g, ctx, union_layout, structure, st, joins, fuel, later);
            let chosen = chosen_constructor(
                union_tags(union_layout),
                0,
                union_layout.spec_null_id(),
                value->Variant_0,
            );
            let source = FieldSource::Constructor(union_layout, chosen.0);
            let inner = enter_union(ctx, union_layout);
            lemma_field_calls_of_children(later, inner, source, chosen.1, 0, value, amount);
            let calls = children_calls(later, inner, source, chosen.1, value, amount);
            assert(calls + nothing =~= calls);
            assert(nothing + nothing =~= nothing);
        },
        Layout::LambdaSet(set) => {
            law_run(env, g, ctx, *set.representation, structure, st, joins, fuel, later);
        },
        _ => {},
    }
}

/// The value has no heap block although its layout is that of one: it is a
/// small string, an empty list, or the null pointer of a heap union.
pub open spec fn is_sentinel(layout: Layout, value: Value) -> bool
    decreases layout,
{
    match layout {
        Layout::Builtin(Builtin::Str) => value->Pair_1 < 0,
        Layout::Builtin(Builtin::List(_)) => value->Pair_1 == 0,
        Layout::Union(union_layout) => is_null(union_layout, value),
        Layout::LambdaSet(set) => is_sentinel(*set.representation, value),
        _ => false,
    }
}

/// No counter is touched for a sentinel. Running the statement for a
/// layout on a small string, on an empty list or on a null pointer changes
/// no counter and calls no helper, whatever the operation.
pub proof fn law_sentinel_untouched<'a>(
    env: Env<'a>,
    g: Gen<'a>,
    ctx: Context<'a>,
    layout: Layout<'a>,
    structure: Symbol,
    st: State,
    joins: Map<JoinPointId, JoinPoint<'a>>,
    fuel: nat,
)
    requires
        keys_unique(g.specs),
        can_dispatch(env, ctx, layout),
        env.ptr_size > 0,
        emit_generic(env, g, ctx, layout, structure).1.idents.len() <= usize::MAX,
        known(env, g, structure),
        known(env, g, Symbol::spec_arg_2()),
        leaves_freely(ctx.op, joins),
        shaped(layout, lookup(st.env, structure)),
        is_sentinel(layout, lookup(st.env, structure)),
        fuel > 0,
    ensures
        run(emit_generic(env, g, ctx, layout, structure).0, st, joins, fuel).0.trace == st.trace,
        run(emit_generic(env, g, ctx, layout, structure).0, st, joins, fuel).1 == leaves(ctx.op),
{
    let value = lookup(st.env, structure);
    let amount = lookup(st.env, Symbol::spec_arg_2());
    let out = emit_generic(env, g, ctx, layout, structure);
    law_one_helper_call_per_child(env, g, ctx, layout, structure);
    assert(out.1.specs.subrange(0, out.1.specs.len() as int) =~= out.1.specs);
    lemma_sentinel_elements(layout, value);
    law_run(env, g, ctx, layout, structure, st, joins, fuel, out.1.specs);
    lemma_sentinel_effects(env, out.1.specs, ctx, layout, value, amount);
    assert(st.trace + Seq::<Event>::empty() =~= st.trace);
}

proof fn lemma_sentinel_elements(layout: Layout, value: Value)
    requires
        is_sentinel(layout, value),
    ensures
        elements_of(layout, value) == 0,
    decreases layout,
{
    match layout {
        Layout::LambdaSet(set) => lemma_sentinel_elements(*set.representation, value),
        _ => {},
    }
}

/// A sentinel has no block and no children.
pub proof fn lemma_sentinel_effects<'a>(
    env: Env<'a>,
    specs: Seq<Specialization<'a>>,
    ctx: Context<'a>,
    layout: Layout<'a>,
    value: Value,
    amount: Value,
)
    requires
        is_sentinel(layout, value),
    ensures
        block(env, layout, value) is None,
        children(env, layout, value) == Seq::<(Layout<'a>, Value)>::empty(),
        effects(env, specs, ctx, layout, value, amount) == Seq::<Event>::empty(),
    decreases layout,
{
    match layout {
        Layout::LambdaSet(set) => {
            lemma_sentinel_effects(env, specs, ctx, *set.representation, value, amount);
        },
        _ => {},
    }
    let none = Seq::<(Layout<'a>, Value)>::empty();
    assert(calls_of(specs, child_context(ctx, layout), none, amount) =~= Seq::<Event>::empty());
    assert(Seq::<Event>::empty() + Seq::<Event>::empty() =~= Seq::<Event>::empty());
}

/// Under `Dec` the effects of the statement for a layout are the calls of
/// the helpers of the children followed by the one change of the counter of
/// the block.
pub proof fn lemma_release_comes_last<'a>(
    env: Env<'a>,
    specs: Seq<Specialization<'a>>,
    ctx: Context<'a>,
    layout: Layout<'a>,
    value: Value,
    amount: Value,
)
    requires
        ctx.op is Dec,
    ensures
        ({
            let events = effects(env, specs, ctx, layout, value, amount);
            forall|i: int, j: int|
                0 <= i < j < events.len() && events[i] is Count ==> events[j] is Count
        }),
{
}

/// Under `DecRef` the effects of the statement for a layout are the one
/// change of the counter of the block, if the value is one.
pub proof fn lemma_decref_changes_one_counter<'a>(
    env: Env<'a>,
    specs: Seq<Specialization<'a>>,
    ctx: Context<'a>,
    layout: Layout<'a>,
    value: Value,
    amount: Value,
)
    requires
        ctx.op is DecRef,
    ensures
        ({
            let events = effects(env, specs, ctx, layout, value, amount);
            &&& events.len() <= 1
            &&& forall|i: int| 0 <= i < events.len() ==> events[i] is Count
        }),
{
}

/// What a run adds to the trace it starts with.
pub open spec fn added(before: Seq<Event>, after: Seq<Event>) -> Seq<Event> {
    after.subrange(before.len() as int, after.len() as int)
}

/// What running the statement for a layout does, told by the registry that
/// emitting the statement leaves behind.
pub proof fn lemma_run_here<'a>(
    env: Env<'a>,
    g: Gen<'a>,
    ctx: Context<'a>,
    layout: Layout<'a>,
    structure: Symbol,
    st: State,
    joins: Map<JoinPointId, JoinPoint<'a>>,
    fuel: nat,
)
    requires
        keys_unique(g.specs),
        can_dispatch(env, ctx, layout),
        env.ptr_size > 0,
        emit_generic(env, g, ctx, layout, structure).1.idents.len() <= usize::MAX,
        known(env, g, structure),
        known(env, g, Symbol::spec_arg_2()),
        leaves_freely(ctx.op, joins),
        shaped(layout, lookup(st.env, structure)),
        elements_of(layout, lookup(st.env, structure)) < fuel,
    ensures
        ({
            let emitted = emit_generic(env, g, ctx, layout, structure);
            let out = run(emitted.0, st, joins, fuel);
            &&& out.1 == leaves(ctx.op)
            &&& st.trace.len() <= out.0.trace.len()
            &&& added(st.trace, out.0.trace) == effects(
                env,
                emitted.1.specs,
                ctx,
                layout,
                lookup(st.env, structure),
                lookup(st.env, Symbol::spec_arg_2()),
            )
        }),
{
    let emitted = emit_generic(env, g, ctx, layout, structure);
    law_one_helper_call_per_child(env, g, ctx, layout, structure);
    assert(emitted.1.specs.subrange(0, emitted.1.specs.len() as int) =~= emitted.1.specs);
    law_run(env, g, ctx, layout, structure, st, joins, fuel, emitted.1.specs);
    let events = effects(
        env,
        emitted.1.specs,
        ctx,
        layout,
        lookup(st.env, structure),
        lookup(st.env, Symbol::spec_arg_2()),
    );
    assert(added(st.trace, st.trace + events) =~= events);
}

/// The children are released before the block. When the statement for a
/// layout runs under `Dec`, no helper is called after the counter of the
/// block was changed, that is, once the block may have been freed.
pub proof fn law_release_comes_last<'a>(
    env: Env<'a>,
    g: Gen<'a>,
    ctx: Context<'a>,
    layout: Layout<'a>,
    structure: Symbol,
    st: State,
    joins: Map<JoinPointId, JoinPoint<'a>>,
    fuel: nat,
)
    requires
        ctx.op is Dec,
        keys_unique(g.specs),
        can_dispatch(env, ctx, layout),
        env.ptr_size > 0,
        emit_generic(env, g, ctx, layout, structure).1.idents.len() <= usize::MAX,
        known(env, g, structure),
        known(env, g, Symbol::spec_arg_2()),
        shaped(layout, lookup(st.env, structure)),
        elements_of(layout, lookup(st.env, structure)) < fuel,
    ensures
        ({
            let out = run(emit_generic(env, g, ctx, layout, structure).0, st, joins, fuel);
            let events = added(st.trace, out.0.trace);
            forall|i: int, j: int|
                0 <= i < j < events.len() && events[i] is Count ==> events[j] is Count
        }),
{
    lemma_run_here(env, g, ctx, layout, structure, st, joins, fuel);
    lemma_release_comes_last(
        env,
        emit_generic(env, g, ctx, layout, structure).1.specs,
        ctx,
        layout,
        lookup(st.env, structure),
        lookup(st.env, Symbol::spec_arg_2()),
    );
}

/// Under `DecRef` only the outermost block is released. When the statement
/// for a layout runs under `DecRef`, it calls no helper, changes at most
/// one counter, and leaves by the jump to the join point of the caller.
pub proof fn law_decref_releases_one_block<'a>(
    env: Env<'a>,
    g: Gen<'a>,
    ctx: Context<'a>,
    layout: Layout<'a>,
    structure: Symbol,
    st: State,
    joins: Map<JoinPointId, JoinPoint<'a>>,
    fuel: nat,
)
    requires
        ctx.op is DecRef,
        keys_unique(g.specs),
        can_dispatch(env, ctx, layout),
        env.ptr_size > 0,
        emit_generic(env, g, ctx, layout, structure).1.idents.len() <= usize::MAX,
        known(env, g, structure),
        known(env, g, Symbol::spec_arg_2()),
        leaves_freely(ctx.op, joins),
        shaped(layout, lookup(st.env, structure)),
        elements_of(layout, lookup(st.env, structure)) < fuel,
    ensures
        ({
            let out = run(emit_generic(env, g, ctx, layout, structure).0, st, joins, fuel);
            let events = added(st.trace, out.0.trace);
            &&& out.1 == Exit::Left(ctx.op->DecRef_0)
            &&& events.len() <= 1
            &&& forall|i: int| 0 <= i < events.len() ==> events[i] is Count
        }),
{
    lemma_run_here(env, g, ctx, layout, structure, st, joins, fuel);
    lemma_decref_changes_one_counter(
        env,
        emit_generic(env, g, ctx, layout, structure).1.specs,
        ctx,
        layout,
        lookup(st.env, structure),
        lookup(st.env, Symbol::spec_arg_2()),
    );
}

/// `Inc` and `Dec` mirror each other at every node of a value. On the same
/// value, the statement for a layout under `Inc` and the one under `Dec`
/// change the same counter, if any, and call helpers for the same children
/// in the same order: under `Inc` the helper registered for `Inc` and the
/// layout of the child, with the amount passed along, under `Dec` the one
/// registered for `Dec` and that layout. Where `Inc` adds the amount to the
/// counter, `Dec` takes one from it.
pub proof fn law_inc_and_dec_mirror<'a>(
    env: Env<'a>,
    inc_specs: Seq<Specialization<'a>>,
    dec_specs: Seq<Specialization<'a>>,
    recursive_union: Option<UnionLayout<'a>>,
    layout: Layout<'a>,
    value: Value,
    amount: Value,
    any: Value,
)
    ensures
        ({
            let inc = Context { recursive_union, op: HelperOp::Inc };
            let dec = Context { recursive_union, op: HelperOp::Dec };
            let up = effects(env, inc_specs, inc, layout, value, amount);
            let down = effects(env, dec_specs, dec, layout, value, any);
            let kids = children(env, layout, value);
            &&& up.len() == down.len()
            &&& forall|k: int|
                0 <= k < kids.len() ==> up.contains(
                    #[trigger] call_event(
                        inc_specs,
                        child_context(inc, layout),
                        kids[k].0,
                        kids[k].1,
                        amount,
                    ),
                ) && down.contains(
                    call_event(dec_specs, child_context(dec, layout), kids[k].0, kids[k].1, any),
                )
            &&& block(env, layout, value) matches Some((slot, alignment)) ==> up.contains(
                Event::Count { inc: true, slot, arg: amount },
            ) && down.contains(Event::Count { inc: false, slot, arg: Value::Int(alignment as int) })
            &&& up.len() == kids.len() + (if block(env, layout, value) is Some {
                1nat
            } else {
                0nat
            })
        }),
{
    let inc = Context { recursive_union, op: HelperOp::Inc };
    let dec = Context { recursive_union, op: HelperOp::Dec };
    let up = effects(env, inc_specs, inc, layout, value, amount);
    let down = effects(env, dec_specs, dec, layout, value, any);
    let kids = children(env, layout, value);
    let up_calls = calls_of(inc_specs, child_context(inc, layout), kids, amount);
    let down_calls = calls_of(dec_specs, child_context(dec, layout), kids, any);
    assert forall|k: int| 0 <= k < kids.len() implies up.contains(
        #[trigger] call_event(inc_specs, child_context(inc, layout), kids[k].0, kids[k].1, amount),
    ) && down.contains(
        call_event(dec_specs, child_context(dec, layout), kids[k].0, kids[k].1, any),
    ) by {
        assert(up_calls[k] == call_event(
            inc_specs,
            child_context(inc, layout),
            kids[k].0,
            kids[k].1,
            amount,
        ));
        assert(down_calls[k] == call_event(
            dec_specs,
            child_context(dec, layout),
            kids[k].0,
            kids[k].1,
            any,
        ));
        if block(env, layout, value) is Some {
            if layout.runtime_layout() is Union {
                assert(up[k + 1] == up_calls[k]);
            } else {
                assert(up[k] == up_calls[k]);
            }
        } else {
            assert(up[k] == up_calls[k]);
        }
        assert(down[k] == down_calls[k]);
    }
    if block(env, layout, value) is Some {
        let slot = block(env, layout, value).unwrap().0;
        let alignment = block(env, layout, value).unwrap().1;
        if layout.runtime_layout() is Union {
            assert(up[0] == Event::Count { inc: true, slot, arg: amount });
        } else {
            assert(up[kids.len() as int] == Event::Count { inc: true, slot, arg: amount });
        }
        assert(down[kids.len() as int] == Event::Count {
            inc: false,
            slot,
            arg: Value::Int(alignment as int),
        });
    }
}

/// Clearing the tag bits of a pointer gives the address of the block. For
/// a block at an address that is a multiple of the pointer size, the
/// counter found from the pointer with a tag id in its low bits is the
/// word before the block, as it is found from the bare address without
/// the mask.
pub proof fn law_mask_recovers_block(env: Env, address: int, tag: int)
    requires
        env.ptr_size == 1 || env.ptr_size == 2 || env.ptr_size == 4 || env.ptr_size == 8
            || env.ptr_size == 16,
        0 <= address <= i64::MAX - 16,
        address % (env.ptr_size as int) == 0,
        0 <= tag < env.ptr_size,
    ensures
        slot_of(env, address + tag, true) == address - env.ptr_size,
        slot_of(env, address, false) == address - env.ptr_size,
{
    let pointer = (address + tag) as i64;
    let base = address as i64;
    let low = tag as i64;
    if env.ptr_size == 1 {
        assert((pointer & -1i64) == pointer) by (bit_vector);
    } else if env.ptr_size == 2 {
        assert((pointer & -2i64) == base) by (bit_vector)
            requires
                pointer == base + low,
                base % 2 == 0,
                0 <= base <= 0x7fff_ffff_ffff_ffef,
                0 <= low < 2,
        ;
    } else if env.ptr_size == 4 {
        assert((pointer & -4i64) == base) by (bit_vector)
            requires
                pointer == base + low,
                base % 4 == 0,
                0 <= base <= 0x7fff_ffff_ffff_ffef,
                0 <= low < 4,
        ;
    } else if env.ptr_size == 8 {
        assert((pointer & -8i64) == base) by (bit_vector)
            requires
                pointer == base + low,
                base % 8 == 0,
                0 <= base <= 0x7fff_ffff_ffff_ffef,
                0 <= low < 8,
        ;
    } else {
        assert((pointer & -16i64) == base) by (bit_vector)
            requires
                pointer == base + low,
                base % 16 == 0,
                0 <= base <= 0x7fff_ffff_ffff_ffef,
                0 <= low < 16,
        ;
    }
}

} // verus!
