//! What emitted statements do when they run, as far as counters are
//! concerned: which counters they change and which helpers they call, in
//! order. Calls of helpers are recorded, not followed.

use crate::arena::List;
use crate::ir::Branch;
use crate::ir::CallType;
use crate::ir::Expr;
use crate::ir::Literal;
use crate::ir::LowLevel;
use crate::ir::Param;
use crate::ir::Stmt;
use crate::shape::branches_size;
use crate::symbol::JoinPointId;
use crate::symbol::Symbol;
use vstd::prelude::*;

verus! {

/// A value at run time, as far as emitted code looks into it.
pub enum Value {
    /// A number, a boolean as 0 or 1, or an address.
    Int(int),
    /// The empty record.
    Unit,
    /// A string or a list: the address of its elements and its length.
    Pair(int, int),
    /// A record of fields.
    Record(Seq<Value>),
    /// A union value: its tag id, its pointer as stored, and its fields.
    Variant(int, int, Seq<Value>),
    /// What is stored at an address, such as an element of a list.
    Stored(int),
}

/// Something that emitted code does to counters.
pub enum Event {
    /// A call of a counter primitive: `RefCountInc` if `inc` is set, else
    /// `RefCountDec`, on the counter at address `slot`, with the amount or
    /// the alignment as `arg`.
    Count { inc: bool, slot: int, arg: Value },
    /// A call of the helper `name`.
    Call { name: Symbol, args: Seq<Value> },
}

/// How a run ends.
pub enum Exit {
    /// By the return of a value.
    Returned(Value),
    /// By a jump to a join point that the statement does not declare.
    Left(JoinPointId),
    /// The run was cut off after too many jumps.
    OutOfFuel,
}

/// The bindings in scope and what has happened so far.
pub struct State {
    pub env: Map<Symbol, Value>,
    pub trace: Seq<Event>,
}

/// A declared join point: its parameters and its body.
pub struct JoinPoint<'a> {
    pub parameters: List<'a, Param<'a>>,
    pub body: Stmt<'a>,
}

/// The value bound to `symbol`; the empty record where there is none.
pub open spec fn lookup(env: Map<Symbol, Value>, symbol: Symbol) -> Value {
    if env.contains_key(symbol) {
        env[symbol]
    } else {
        Value::Unit
    }
}

/// The number that a value is when it is used as one. A union value is
/// its pointer.
pub open spec fn number(value: Value) -> int {
    match value {
        Value::Int(n) => n,
        Value::Variant(_, ptr, _) => ptr,
        _ => 0,
    }
}

/// The value of argument `i`.
pub open spec fn argument(env: Map<Symbol, Value>, arguments: List<Symbol>, i: nat) -> Value {
    match arguments.get(i) {
        Some(symbol) => lookup(env, symbol),
        None => Value::Unit,
    }
}

/// The values of all arguments.
pub open spec fn argument_values(env: Map<Symbol, Value>, arguments: List<Symbol>) -> Seq<Value>
    decreases arguments,
{
    match arguments {
        List::Nil => Seq::empty(),
        List::Cons(head, tail) => seq![lookup(env, head)] + argument_values(env, *tail),
    }
}

/// Bitwise and of two machine words.
pub open spec fn bit_and(a: int, b: int) -> int {
    ((a as i64) & (b as i64)) as int
}

/// The value of a primitive that changes no counter.
pub open spec fn primitive_value(op: LowLevel, env: Map<Symbol, Value>, arguments: List<Symbol>)
    -> Value {
    let a = argument(env, arguments, 0);
    let b = argument(env, arguments, 1);
    match op {
        LowLevel::PtrCast => Value::Int(number(a)),
        LowLevel::ListLen => match a {
            Value::Pair(_, len) => Value::Int(len),
            _ => Value::Unit,
        },
        LowLevel::NumAdd => Value::Int(number(a) + number(b)),
        LowLevel::NumSub => Value::Int(number(a) - number(b)),
        LowLevel::NumMul => Value::Int(number(a) * number(b)),
        LowLevel::NumGte => Value::Int(
            if number(a) >= number(b) {
                1
            } else {
                0
            },
        ),
        LowLevel::Eq => Value::Int(
            if number(a) == number(b) {
                1
            } else {
                0
            },
        ),
        LowLevel::And => Value::Int(bit_and(number(a), number(b))),
        LowLevel::RefCountInc => Value::Unit,
        LowLevel::RefCountDec => Value::Unit,
    }
}

/// The value of an expression.
pub open spec fn value_of(expr: Expr, env: Map<Symbol, Value>) -> Value {
    match expr {
        Expr::Literal(Literal::Int(n)) => Value::Int(n as int),
        Expr::Literal(Literal::Bool(b)) => Value::Int(
            if b {
                1
            } else {
                0
            },
        ),
        Expr::Literal(Literal::Byte(n)) => Value::Int(n as int),
        Expr::Call(call) => match call.call_type {
            CallType::ByName { .. } => Value::Unit,
            CallType::LowLevel { op, .. } => primitive_value(op, env, *call.arguments),
        },
        Expr::Struct(fields) => if *fields is Nil {
            Value::Unit
        } else {
            Value::Record(argument_values(env, *fields))
        },
        Expr::StructAtIndex { index, structure, .. } => match lookup(env, structure) {
            Value::Pair(elements, len) => Value::Int(
                if index == 0 {
                    elements
                } else {
                    len
                },
            ),
            Value::Record(fields) => if index < fields.len() {
                fields[index as int]
            } else {
                Value::Unit
            },
            _ => Value::Unit,
        },
        Expr::GetTagId { structure, .. } => match lookup(env, structure) {
            Value::Variant(tag, _, _) => Value::Int(tag),
            _ => Value::Unit,
        },
        Expr::UnionAtIndex { structure, index, .. } => match lookup(env, structure) {
            Value::Variant(_, _, fields) => if index < fields.len() {
                fields[index as int]
            } else {
                Value::Unit
            },
            Value::Int(address) => Value::Stored(address),
            _ => Value::Unit,
        },
    }
}

/// What evaluating an expression does to counters, if anything.
pub open spec fn event_of(expr: Expr, env: Map<Symbol, Value>) -> Option<Event> {
    match expr {
        Expr::Call(call) => match call.call_type {
            CallType::ByName { name, .. } => Some(
                Event::Call { name, args: argument_values(env, *call.arguments) },
            ),
            CallType::LowLevel { op, .. } => if op == LowLevel::RefCountInc || op
                == LowLevel::RefCountDec {
                Some(
                    Event::Count {
                        inc: op == LowLevel::RefCountInc,
                        slot: number(argument(env, *call.arguments, 0)),
                        arg: argument(env, *call.arguments, 1),
                    },
                )
            } else {
                None
            },
        },
        _ => None,
    }
}

/// The state after `symbol` was bound to the value of `expr`.
pub open spec fn bind(st: State, symbol: Symbol, expr: Expr) -> State {
    State {
        env: st.env.insert(symbol, value_of(expr, st.env)),
        trace: match event_of(expr, st.env) {
            Some(event) => st.trace.push(event),
            None => st.trace,
        },
    }
}

/// The environment after the parameters of a join point were bound to the
/// values of the arguments of a jump, taken in `from`.
pub open spec fn bind_parameters(
    env: Map<Symbol, Value>,
    from: Map<Symbol, Value>,
    parameters: List<Param>,
    arguments: List<Symbol>,
) -> Map<Symbol, Value>
    decreases parameters,
{
    match parameters {
        List::Nil => env,
        List::Cons(param, more) => match arguments {
            List::Nil => env,
            List::Cons(argument, rest) => bind_parameters(
                env.insert(param.symbol, lookup(from, argument)),
                from,
                *more,
                *rest,
            ),
        },
    }
}

/// Every statement counts as one at least.
pub proof fn lemma_size_positive(stmt: Stmt)
    ensures
        stmt.size() >= 1,
{
}

/// Runs `stmt` from the state `st`, the join points `joins` being declared
/// around it. Each jump to a declared join point uses up one unit of
/// `fuel`.
pub open spec fn run<'a>(
    stmt: Stmt<'a>,
    st: State,
    joins: Map<JoinPointId, JoinPoint<'a>>,
    fuel: nat,
) -> (State, Exit)
    decreases fuel, stmt.size(), 0nat,
{
    match stmt {
        Stmt::Let(symbol, expr, _, next) => run(*next, bind(st, symbol, expr), joins, fuel),
        Stmt::Switch { cond_symbol, branches, default_branch, .. } => run_switch(
            *branches,
            *default_branch.1,
            number(lookup(st.env, cond_symbol)),
            st,
            joins,
            fuel,
        ),
        Stmt::Ret(symbol) => (st, Exit::Returned(lookup(st.env, symbol))),
        Stmt::Join { id, parameters, body, remainder } => run(
            *remainder,
            st,
            joins.insert(id, JoinPoint { parameters: *parameters, body: *body }),
            fuel,
        ),
        Stmt::Jump(id, arguments) => if !joins.contains_key(id) {
            (st, Exit::Left(id))
        } else if fuel == 0 {
            (st, Exit::OutOfFuel)
        } else {
            run(
                joins[id].body,
                State {
                    env: bind_parameters(st.env, st.env, joins[id].parameters, *arguments),
                    trace: st.trace,
                },
                joins,
                (fuel - 1) as nat,
            )
        },
    }
}

/// Runs the first of `branches` that is taken on `value`, or else
/// `default`.
pub open spec fn run_switch<'a>(
    branches: List<'a, Branch<'a>>,
    default: Stmt<'a>,
    value: int,
    st: State,
    joins: Map<JoinPointId, JoinPoint<'a>>,
    fuel: nat,
) -> (State, Exit)
    decreases fuel, branches_size(branches) + default.size(), 1nat,
{
    match branches {
        List::Nil => run(default, st, joins, fuel),
        List::Cons(head, tail) => if head.0 == value {
            proof {
                lemma_size_positive(default);
            }
            run(head.2, st, joins, fuel)
        } else {
            proof {
                lemma_size_positive(head.2);
            }
            run_switch(*tail, default, value, st, joins, fuel)
        },
    }
}

} // verus!
