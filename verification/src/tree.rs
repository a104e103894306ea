//! What a whole program of helpers does to the counters of a value tree.

use crate::help::Context;
use crate::help::Env;
use crate::help::Gen;
use crate::help::HelperOp;
use crate::help::Specialization;
use crate::help::find_from;
use crate::help::keys_unique;
use crate::help::resolve_layout;
use crate::ir::Stmt;
use crate::layout::Layout;
use crate::layout::UnionLayout;
use crate::machine::Event;
use crate::machine::JoinPoint;
use crate::machine::State;
use crate::machine::Value;
use crate::machine::number;
use crate::machine::run;
use crate::refcount::can_dispatch;
use crate::refcount::emit_generic;
use crate::runs::block;
use crate::runs::call_event;
use crate::runs::calls_of;
use crate::runs::child_context;
use crate::runs::children;
use crate::runs::count_event;
use crate::runs::effects;
use crate::runs::elements_of;
use crate::runs::extends;
use crate::runs::law_run;
use crate::runs::shaped;
use crate::symbol::JoinPointId;
use crate::symbol::PARAMS_MODULE;
use crate::symbol::Symbol;
use vstd::prelude::*;

verus! {

/// The helpers of a compilation: the registry that names them, the body of
/// each, the state of the generator before each body was emitted, and for
/// each layout the heap union, if any, inside which its helpers were asked
/// for.
pub struct Program<'a> {
    pub env: Env<'a>,
    pub specs: Seq<Specialization<'a>>,
    pub bodies: Map<Symbol, Stmt<'a>>,
    pub origin: Map<Symbol, Gen<'a>>,
    pub enclosing: Map<Layout<'a>, UnionLayout<'a>>,
}

impl<'a> Program<'a> {
    /// Pointers have a size, fresh symbols are told from parameters, and no
    /// key is registered twice.
    pub open spec fn wf(self) -> bool {
        &&& self.env.ptr_size > 0
        &&& self.env.home != PARAMS_MODULE
        &&& keys_unique(self.specs)
    }

    /// The context under which the body of the helper for `(op, layout)` is
    /// emitted.
    pub open spec fn context(self, op: HelperOp, layout: Layout<'a>) -> Context<'a> {
        Context {
            recursive_union: if self.enclosing.contains_key(layout) {
                Some(self.enclosing[layout])
            } else {
                None
            },
            op,
        }
    }

    /// The name of the helper for `(op, layout)`.
    pub open spec fn name(self, op: HelperOp, layout: Layout<'a>) -> Symbol {
        find_from(self.specs, op, layout, 0).unwrap()
    }

    /// The helper for `(op, layout)` is registered, and its body is the
    /// statement that the lowering emits for the layout on the first
    /// parameter, from a state of the generator whose registry this registry
    /// holds.
    pub open spec fn has_helper(self, op: HelperOp, layout: Layout<'a>) -> bool {
        let name = self.name(op, layout);
        let ctx = self.context(op, layout);
        let out = emit_generic(self.env, self.origin[name], ctx, layout, Symbol::spec_arg_1());
        &&& find_from(self.specs, op, layout, 0) is Some
        &&& self.bodies.contains_key(name)
        &&& self.bodies[name] == out.0
        &&& keys_unique(self.origin[name].specs)
        &&& can_dispatch(self.env, ctx, layout)
        &&& out.1.idents.len() <= usize::MAX
        &&& extends(out.1.specs, self.specs)
    }
}

/// The value that `value` stands for: what memory holds at its address
/// where it is an element of a list, else itself.
pub open spec fn deref(memory: Map<int, Value>, value: Value) -> Value {
    match value {
        Value::Stored(address) => if memory.contains_key(address) {
            memory[address]
        } else {
            Value::Unit
        },
        _ => value,
    }
}

/// The state in which the body of a helper starts.
pub open spec fn entry(memory: Map<int, Value>, value: Value, amount: Value) -> State {
    State {
        env: Map::<Symbol, Value>::empty().insert(
            Symbol::spec_arg_1(),
            deref(memory, value),
        ).insert(Symbol::spec_arg_2(), amount),
        trace: Seq::empty(),
    }
}

/// The changes of counters that the helper `name` makes when it is called
/// on `value`, the calls of helpers that it makes in turn followed `depth`
/// levels down, in the order in which they happen.
pub open spec fn descend<'a>(
    prog: Program<'a>,
    memory: Map<int, Value>,
    name: Symbol,
    value: Value,
    amount: Value,
    fuel: nat,
    depth: nat,
) -> Seq<Event>
    decreases depth, 0nat,
{
    if depth == 0 || !prog.bodies.contains_key(name) {
        Seq::empty()
    } else {
        flatten(
            prog,
            memory,
            run(
                prog.bodies[name],
                entry(memory, value, amount),
                Map::<JoinPointId, JoinPoint<'a>>::empty(),
                fuel,
            ).0.trace,
            fuel,
            (depth - 1) as nat,
        )
    }
}

/// The changes of counters that `events` stand for: each change itself,
/// and for each call of a helper the changes that the helper makes.
pub open spec fn flatten<'a>(
    prog: Program<'a>,
    memory: Map<int, Value>,
    events: Seq<Event>,
    fuel: nat,
    depth: nat,
) -> Seq<Event>
    decreases depth, events.len(),
{
    if events.len() == 0 {
        Seq::empty()
    } else {
        (match events[0] {
            Event::Count { .. } => seq![events[0]],
            Event::Call { name, args } => descend(
                prog,
                memory,
                name,
                args[0],
                if args.len() > 1 {
                    args[1]
                } else {
                    Value::Unit
                },
                fuel,
                depth,
            ),
        }) + flatten(prog, memory, events.drop_first(), fuel, depth)
    }
}

/// Number of changes of the counter at `slot` among `events`.
pub open spec fn count_on(events: Seq<Event>, slot: int) -> nat
    decreases events.len(),
{
    if events.len() == 0 {
        0
    } else {
        (if events[0] matches Event::Count { slot: at, .. } && at == slot {
            1nat
        } else {
            0nat
        }) + count_on(events.drop_first(), slot)
    }
}

/// Number of times that the value tree under `value` holds the block whose
/// counter is at `slot`, down to `depth` levels. This depends on the value
/// alone, not on the operation.
pub open spec fn hits<'a>(
    prog: Program<'a>,
    memory: Map<int, Value>,
    layout: Layout<'a>,
    value: Value,
    depth: nat,
    slot: int,
) -> nat
    decreases depth, 0nat,
{
    if depth == 0 {
        0
    } else {
        let held = deref(memory, value);
        (if block(prog.env, layout, held) matches Some((at, _)) && at == slot {
            1nat
        } else {
            0nat
        }) + children_hits(
            prog,
            memory,
            child_context(prog.context(HelperOp::Inc, layout), layout),
            children(prog.env, layout, held),
            (depth - 1) as nat,
            slot,
        )
    }
}

/// `hits` summed over children, each under the layout that its helper is
/// made for.
pub open spec fn children_hits<'a>(
    prog: Program<'a>,
    memory: Map<int, Value>,
    ctx: Context<'a>,
    kids: Seq<(Layout<'a>, Value)>,
    depth: nat,
    slot: int,
) -> nat
    decreases depth, kids.len(),
{
    if kids.len() == 0 {
        0
    } else {
        hits(prog, memory, resolve_layout(ctx, kids[0].0).unwrap(), kids[0].1, depth, slot)
            + children_hits(prog, memory, ctx, kids.drop_first(), depth, slot)
    }
}

/// The program has what the value tree under `value` needs, down to `depth`
/// levels: at every node both the `Inc` helper and the `Dec` helper for the
/// layout of the node, the value has the form of the layout, a list has
/// fewer elements than `fuel` allows jumps, and the same holds of every
/// child.
pub open spec fn covers<'a>(
    prog: Program<'a>,
    memory: Map<int, Value>,
    layout: Layout<'a>,
    value: Value,
    fuel: nat,
    depth: nat,
) -> bool
    decreases depth, 0nat,
{
    depth == 0 || {
        let held = deref(memory, value);
        &&& prog.has_helper(HelperOp::Inc, layout)
        &&& prog.has_helper(HelperOp::Dec, layout)
        &&& shaped(layout, held)
        &&& elements_of(layout, held) < fuel
        &&& children_covered(
            prog,
            memory,
            child_context(prog.context(HelperOp::Inc, layout), layout),
            children(prog.env, layout, held),
            fuel,
            (depth - 1) as nat,
        )
    }
}

/// `covers` for every child, each under the layout that its helper is made
/// for.
pub open spec fn children_covered<'a>(
    prog: Program<'a>,
    memory: Map<int, Value>,
    ctx: Context<'a>,
    kids: Seq<(Layout<'a>, Value)>,
    fuel: nat,
    depth: nat,
) -> bool
    decreases depth, kids.len(),
{
    kids.len() == 0 || {
        &&& resolve_layout(ctx, kids[0].0) is Some
        &&& covers(prog, memory, resolve_layout(ctx, kids[0].0).unwrap(), kids[0].1, fuel, depth)
        &&& children_covered(prog, memory, ctx, kids.drop_first(), fuel, depth)
    }
}

/// Flattening goes through concatenation.
pub proof fn lemma_flatten_concat<'a>(
    prog: Program<'a>,
    memory: Map<int, Value>,
    a: Seq<Event>,
    b: Seq<Event>,
    fuel: nat,
    depth: nat,
)
    ensures
        flatten(prog, memory, a + b, fuel, depth) == flatten(prog, memory, a, fuel, depth)
            + flatten(prog, memory, b, fuel, depth),
    decreases a.len(),
{
    if a.len() == 0 {
        assert(a + b =~= b);
        assert(Seq::<Event>::empty() + flatten(prog, memory, b, fuel, depth) =~= flatten(
            prog,
            memory,
            b,
            fuel,
            depth,
        ));
    } else {
        assert((a + b).drop_first() =~= a.drop_first() + b);
        lemma_flatten_concat(prog, memory, a.drop_first(), b, fuel, depth);
        let head = flatten(prog, memory, seq![a[0]], fuel, depth);
        assert(flatten(prog, memory, a + b, fuel, depth) =~= flatten(prog, memory, a, fuel, depth)
            + flatten(prog, memory, b, fuel, depth));
    }
}

/// Counting goes through concatenation.
pub proof fn lemma_count_on_concat(a: Seq<Event>, b: Seq<Event>, slot: int)
    ensures
        count_on(a + b, slot) == count_on(a, slot) + count_on(b, slot),
    decreases a.len(),
{
    if a.len() == 0 {
        assert(a + b =~= b);
    } else {
        assert((a + b).drop_first() =~= a.drop_first() + b);
        lemma_count_on_concat(a.drop_first(), b, slot);
    }
}

/// The one change of the counter of a block, where there is a block.
pub open spec fn own_count<'a>(
    env: Env<'a>,
    op: HelperOp,
    layout: Layout<'a>,
    value: Value,
    amount: Value,
) -> Seq<Event> {
    match block(env, layout, value) {
        Some((slot, alignment)) => seq![count_event(op, amount, slot, alignment)],
        None => Seq::empty(),
    }
}

proof fn lemma_own_count<'a>(
    prog: Program<'a>,
    memory: Map<int, Value>,
    op: HelperOp,
    layout: Layout<'a>,
    value: Value,
    amount: Value,
    fuel: nat,
    depth: nat,
    slot: int,
)
    ensures
        flatten(prog, memory, own_count(prog.env, op, layout, value, amount), fuel, depth)
            == own_count(prog.env, op, layout, value, amount),
        count_on(own_count(prog.env, op, layout, value, amount), slot) == (if block(
            prog.env,
            layout,
            value,
        ) matches Some((at, _)) && at == slot {
            1nat
        } else {
            0nat
        }),
{
    let own = own_count(prog.env, op, layout, value, amount);
    if own.len() > 0 {
        assert(own.drop_first() =~= Seq::<Event>::empty());
        assert(flatten(prog, memory, own, fuel, depth) =~= own) by {
            reveal_with_fuel(flatten, 2);
        }
        assert(count_on(own, slot) == (if own[0]->slot == slot {
            1nat
        } else {
            0nat
        })) by {
            reveal_with_fuel(count_on, 2);
        }
    }
}

/// Whatever the operation, the helper for a layout changes the counter at
/// `slot` as often as the value tree holds the block of that counter.
pub proof fn lemma_descend_hits<'a>(
    prog: Program<'a>,
    memory: Map<int, Value>,
    op: HelperOp,
    layout: Layout<'a>,
    value: Value,
    amount: Value,
    fuel: nat,
    depth: nat,
    slot: int,
)
    requires
        prog.wf(),
        covers(prog, memory, layout, value, fuel, depth),
        op is Inc || op is Dec,
    ensures
        count_on(
            descend(prog, memory, prog.name(op, layout), value, amount, fuel, depth),
            slot,
        ) == hits(prog, memory, layout, value, depth, slot),
    decreases depth, 0nat,
{
    if depth > 0 {
        let name = prog.name(op, layout);
        let ctx = prog.context(op, layout);
        let held = deref(memory, value);
        let st = entry(memory, value, amount);
        let joins = Map::<JoinPointId, JoinPoint<'a>>::empty();
        assert(prog.has_helper(op, layout));
        law_run(
            prog.env,
            prog.origin[name],
            ctx,
            layout,
            Symbol::spec_arg_1(),
            st,
            joins,
            fuel,
            prog.specs,
        );
        let trace = run(prog.bodies[name], st, joins, fuel).0.trace;
        let events = effects(prog.env, prog.specs, ctx, layout, held, amount);
        assert(trace =~= events);
        let kids = children(prog.env, layout, held);
        let inner = child_context(ctx, layout);
        let calls = calls_of(prog.specs, inner, kids, amount);
        let own = own_count(prog.env, op, layout, held, amount);
        let below = (depth - 1) as nat;
        lemma_child_context(prog.context(HelperOp::Inc, layout), ctx, layout);
        lemma_calls_hits(
            prog,
            memory,
            op,
            inner,
            child_context(prog.context(HelperOp::Inc, layout), layout),
            kids,
            amount,
            fuel,
            below,
            slot,
        );
        lemma_own_count(prog, memory, op, layout, held, amount, fuel, below, slot);
        if op is Inc && layout.runtime_layout() is Union {
            assert(events == own + calls);
            lemma_flatten_concat(prog, memory, own, calls, fuel, below);
            lemma_count_on_concat(own, flatten(prog, memory, calls, fuel, below), slot);
        } else {
            assert(events == calls + own);
            lemma_flatten_concat(prog, memory, calls, own, fuel, below);
            lemma_count_on_concat(flatten(prog, memory, calls, fuel, below), own, slot);
        }
    }
}

/// Entering a union does not depend on the operation.
proof fn lemma_child_context<'a>(a: Context<'a>, b: Context<'a>, layout: Layout<'a>)
    requires
        a.recursive_union == b.recursive_union,
    ensures
        child_context(a, layout).recursive_union == child_context(b, layout).recursive_union,
        child_context(a, layout).op == a.op,
        child_context(b, layout).op == b.op,
    decreases layout,
{
    match layout {
        Layout::LambdaSet(set) => lemma_child_context(a, b, *set.representation),
        _ => {},
    }
}

/// The helpers called for the children change the counter at `slot` as
/// often as the trees under the children hold its block.
proof fn lemma_calls_hits<'a>(
    prog: Program<'a>,
    memory: Map<int, Value>,
    op: HelperOp,
    ctx: Context<'a>,
    any_op: Context<'a>,
    kids: Seq<(Layout<'a>, Value)>,
    amount: Value,
    fuel: nat,
    depth: nat,
    slot: int,
)
    requires
        prog.wf(),
        op is Inc || op is Dec,
        ctx.op == op,
        ctx.recursive_union == any_op.recursive_union,
        children_covered(prog, memory, any_op, kids, fuel, depth),
    ensures
        count_on(flatten(prog, memory, calls_of(prog.specs, ctx, kids, amount), fuel, depth), slot)
            == children_hits(prog, memory, any_op, kids, depth, slot),
    decreases depth, kids.len() + 1,
{
    let calls = calls_of(prog.specs, ctx, kids, amount);
    if kids.len() > 0 {
        let rest = kids.drop_first();
        let layout = resolve_layout(any_op, kids[0].0).unwrap();
        assert(resolve_layout(ctx, kids[0].0) == resolve_layout(any_op, kids[0].0));
        assert(calls.drop_first() =~= calls_of(prog.specs, ctx, rest, amount));
        let first = call_event(prog.specs, ctx, kids[0].0, kids[0].1, amount);
        assert(calls[0] == first);
        assert(first->name == prog.name(op, layout));
        let passed = if first->args.len() > 1 {
            first->args[1]
        } else {
            Value::Unit
        };
        lemma_descend_hits(prog, memory, op, layout, kids[0].1, passed, fuel, depth, slot);
        lemma_calls_hits(prog, memory, op, ctx, any_op, rest, amount, fuel, depth, slot);
        lemma_count_on_concat(
            descend(prog, memory, first->name, kids[0].1, passed, fuel, depth),
            flatten(prog, memory, calls.drop_first(), fuel, depth),
            slot,
        );
    }
}

/// Every one of `events` is a change of a counter by the primitive of `op`,
/// and under `Inc` by `amount`.
pub open spec fn uniform(op: HelperOp, events: Seq<Event>, amount: Value) -> bool {
    forall|i: int|
        0 <= i < events.len() ==> {
            &&& #[trigger] events[i] is Count
            &&& events[i]->inc == (op is Inc)
            &&& op is Inc ==> events[i]->arg == amount
        }
}

/// What a helper for `Inc` does is to add the amount it was called with,
/// however deep in the value tree; what a helper for `Dec` does is to take
/// one.
pub proof fn lemma_descend_uniform<'a>(
    prog: Program<'a>,
    memory: Map<int, Value>,
    op: HelperOp,
    layout: Layout<'a>,
    value: Value,
    amount: Value,
    fuel: nat,
    depth: nat,
)
    requires
        prog.wf(),
        covers(prog, memory, layout, value, fuel, depth),
        op is Inc || op is Dec,
    ensures
        uniform(
            op,
            descend(prog, memory, prog.name(op, layout), value, amount, fuel, depth),
            amount,
        ),
    decreases depth, 0nat,
{
    if depth > 0 {
        let name = prog.name(op, layout);
        let ctx = prog.context(op, layout);
        let held = deref(memory, value);
        let st = entry(memory, value, amount);
        let joins = Map::<JoinPointId, JoinPoint<'a>>::empty();
        assert(prog.has_helper(op, layout));
        law_run(
            prog.env,
            prog.origin[name],
            ctx,
            layout,
            Symbol::spec_arg_1(),
            st,
            joins,
            fuel,
            prog.specs,
        );
        let trace = run(prog.bodies[name], st, joins, fuel).0.trace;
        let events = effects(prog.env, prog.specs, ctx, layout, held, amount);
        assert(trace =~= events);
        let kids = children(prog.env, layout, held);
        let inner = child_context(ctx, layout);
        let calls = calls_of(prog.specs, inner, kids, amount);
        let own = own_count(prog.env, op, layout, held, amount);
        let below = (depth - 1) as nat;
        lemma_child_context(prog.context(HelperOp::Inc, layout), ctx, layout);
        lemma_calls_uniform(
            prog,
            memory,
            op,
            inner,
            child_context(prog.context(HelperOp::Inc, layout), layout),
            kids,
            amount,
            fuel,
            below,
        );
        lemma_own_count(prog, memory, op, layout, held, amount, fuel, below, 0);
        if op is Inc && layout.runtime_layout() is Union {
            assert(events == own + calls);
            lemma_flatten_concat(prog, memory, own, calls, fuel, below);
        } else {
            assert(events == calls + own);
            lemma_flatten_concat(prog, memory, calls, own, fuel, below);
        }
    }
}

proof fn lemma_calls_uniform<'a>(
    prog: Program<'a>,
    memory: Map<int, Value>,
    op: HelperOp,
    ctx: Context<'a>,
    any_op: Context<'a>,
    kids: Seq<(Layout<'a>, Value)>,
    amount: Value,
    fuel: nat,
    depth: nat,
)
    requires
        prog.wf(),
        op is Inc || op is Dec,
        ctx.op == op,
        ctx.recursive_union == any_op.recursive_union,
        children_covered(prog, memory, any_op, kids, fuel, depth),
    ensures
        uniform(
            op,
            flatten(prog, memory, calls_of(prog.specs, ctx, kids, amount), fuel, depth),
            amount,
        ),
    decreases depth, kids.len() + 1,
{
    let calls = calls_of(prog.specs, ctx, kids, amount);
    if kids.len() > 0 {
        let rest = kids.drop_first();
        let layout = resolve_layout(any_op, kids[0].0).unwrap();
        assert(resolve_layout(ctx, kids[0].0) == resolve_layout(any_op, kids[0].0));
        assert(calls.drop_first() =~= calls_of(prog.specs, ctx, rest, amount));
        let first = call_event(prog.specs, ctx, kids[0].0, kids[0].1, amount);
        assert(calls[0] == first);
        assert(first->name == prog.name(op, layout));
        let passed = if first->args.len() > 1 {
            first->args[1]
        } else {
            Value::Unit
        };
        assert(op is Inc ==> passed == amount);
        lemma_descend_uniform(prog, memory, op, layout, kids[0].1, passed, fuel, depth);
        lemma_calls_uniform(prog, memory, op, ctx, any_op, rest, amount, fuel, depth);
    }
}

/// `Inc` and `Dec` change the same counters of a value tree, equally
/// often.
///
/// Take the helpers of a program, each with the body that the lowering
/// emits for it, and a value tree that the program covers. Run the `Inc`
/// helper of the layout on the value with an amount, and the `Dec` helper
/// on the same value, each call of a helper followed into the body of that
/// helper. Then both change the same counters equally often: the counter
/// at any address is changed by the one as many times as by the other. Each
/// change that `Inc` makes adds the amount, and each change that `Dec`
/// makes takes one. So what `Inc` adds to a counter, as many runs of `Dec`
/// as the amount says take away again.
pub proof fn law_inc_and_dec_visit_alike<'a>(
    prog: Program<'a>,
    memory: Map<int, Value>,
    layout: Layout<'a>,
    value: Value,
    amount: Value,
    fuel: nat,
    depth: nat,
    slot: int,
)
    requires
        prog.wf(),
        covers(prog, memory, layout, value, fuel, depth),
    ensures
        ({
            let up = descend(
                prog,
                memory,
                prog.name(HelperOp::Inc, layout),
                value,
                amount,
                fuel,
                depth,
            );
            let down = descend(
                prog,
                memory,
                prog.name(HelperOp::Dec, layout),
                value,
                Value::Unit,
                fuel,
                depth,
            );
            &&& count_on(up, slot) == count_on(down, slot)
            &&& uniform(HelperOp::Inc, up, amount)
            &&& uniform(HelperOp::Dec, down, Value::Unit)
        }),
{
    lemma_descend_hits(prog, memory, HelperOp::Inc, layout, value, amount, fuel, depth, slot);
    lemma_descend_hits(prog, memory, HelperOp::Dec, layout, value, Value::Unit, fuel, depth, slot);
    lemma_descend_uniform(prog, memory, HelperOp::Inc, layout, value, amount, fuel, depth);
    lemma_descend_uniform(prog, memory, HelperOp::Dec, layout, value, Value::Unit, fuel, depth);
}

/// What `events` add to the counter at `slot` in all: the amount for each
/// call of `RefCountInc` on it, and one less for each call of
/// `RefCountDec`.
pub open spec fn net(events: Seq<Event>, slot: int) -> int
    decreases events.len(),
{
    if events.len() == 0 {
        0
    } else {
        (match events[0] {
            Event::Count { inc, slot: at, arg } => if at != slot {
                0
            } else if inc {
                number(arg)
            } else {
                -1
            },
            Event::Call { .. } => 0,
        }) + net(events.drop_first(), slot)
    }
}

proof fn lemma_net_of_incs(events: Seq<Event>, n: int, slot: int)
    requires
        uniform(HelperOp::Inc, events, Value::Int(n)),
    ensures
        net(events, slot) == n * count_on(events, slot),
    decreases events.len(),
{
    if events.len() > 0 {
        let rest = events.drop_first();
        assert(events[0] is Count);
        assert forall|i: int| 0 <= i < rest.len() implies {
            &&& #[trigger] rest[i] is Count
            &&& rest[i]->inc
            &&& rest[i]->arg == Value::Int(n)
        } by {
            assert(rest[i] == events[i + 1]);
        }
        lemma_net_of_incs(rest, n, slot);
        let c = count_on(rest, slot) as int;
        assert(n * (1 + c) == n + n * c) by (nonlinear_arith);
        assert(number(events[0]->arg) == n);
        if events[0]->slot == slot {
            assert(count_on(events, slot) == 1 + c);
            assert(net(events, slot) == n + net(rest, slot));
        } else {
            assert(count_on(events, slot) == c);
            assert(net(events, slot) == net(rest, slot));
        }
    } else {
        assert(n * 0 == 0) by (nonlinear_arith);
    }
}

proof fn lemma_net_of_decs(events: Seq<Event>, slot: int)
    requires
        uniform(HelperOp::Dec, events, Value::Unit),
    ensures
        net(events, slot) == -(count_on(events, slot) as int),
    decreases events.len(),
{
    if events.len() > 0 {
        let rest = events.drop_first();
        assert(events[0] is Count);
        assert forall|i: int| 0 <= i < rest.len() implies {
            &&& #[trigger] rest[i] is Count
            &&& !rest[i]->inc
        } by {
            assert(rest[i] == events[i + 1]);
        }
        lemma_net_of_decs(rest, slot);
    }
}

/// An `Inc` by `n` followed by `n` times `Dec` leaves every counter of a
/// value tree at the value it had.
///
/// What the `Inc` helper of a layout, called with the amount `n`, adds to
/// the counter at any address, and what the `Dec` helper of that layout
/// adds to it, taken `n` times, cancel each other. The counters have no
/// part in what the helpers do, so that each of the `n` runs of `Dec`
/// does the same.
pub proof fn law_round_trip<'a>(
    prog: Program<'a>,
    memory: Map<int, Value>,
    layout: Layout<'a>,
    value: Value,
    n: int,
    fuel: nat,
    depth: nat,
    slot: int,
)
    requires
        prog.wf(),
        covers(prog, memory, layout, value, fuel, depth),
    ensures
        net(
            descend(
                prog,
                memory,
                prog.name(HelperOp::Inc, layout),
                value,
                Value::Int(n),
                fuel,
                depth,
            ),
            slot,
        ) + n * net(
            descend(
                prog,
                memory,
                prog.name(HelperOp::Dec, layout),
                value,
                Value::Unit,
                fuel,
                depth,
            ),
            slot,
        ) == 0,
{
    let up = descend(
        prog,
        memory,
        prog.name(HelperOp::Inc, layout),
        value,
        Value::Int(n),
        fuel,
        depth,
    );
    let down = descend(
        prog,
        memory,
        prog.name(HelperOp::Dec, layout),
        value,
        Value::Unit,
        fuel,
        depth,
    );
    law_inc_and_dec_visit_alike(prog, memory, layout, value, Value::Int(n), fuel, depth, slot);
    lemma_net_of_incs(up, n, slot);
    lemma_net_of_decs(down, slot);
    let c = count_on(up, slot) as int;
    assert(n * c + n * (-c) == 0) by (nonlinear_arith);
}

} // verus!
