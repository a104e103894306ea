//! Observations on statements: what a statement calls, binds and branches
//! on. The laws of the lowering are stated over these.

use crate::arena::List;
use crate::ir::Branch;
use crate::ir::CallType;
use crate::ir::Expr;
use crate::ir::LowLevel;
use crate::ir::Stmt;
use crate::symbol::Symbol;
use vstd::prelude::*;

verus! {

impl<'a> Expr<'a> {
    /// The expression is a call of the primitive `op`.
    pub open spec fn is_lowlevel(self, op: LowLevel) -> bool {
        self matches Expr::Call(call) && call.call_type matches CallType::LowLevel { op: called, .. }
            && called == op
    }

    /// The expression is a call of a procedure by name, that is, of a
    /// helper.
    pub open spec fn is_helper_call(self) -> bool {
        self matches Expr::Call(call) && call.call_type is ByName
    }

    /// The expression is a call of a runtime primitive that changes a
    /// counter.
    pub open spec fn touches_counter(self) -> bool {
        self.is_lowlevel(LowLevel::RefCountInc) || self.is_lowlevel(LowLevel::RefCountDec)
    }
}

/// Number of helper calls in the statements of `branches`.
pub open spec fn branches_helper_calls(branches: List<Branch>) -> nat
    decreases branches,
{
    match branches {
        List::Nil => 0,
        List::Cons(head, tail) => head.2.helper_calls() + branches_helper_calls(*tail),
    }
}

/// Number of calls of counter primitives in the statements of `branches`.
pub open spec fn branches_counter_ops(branches: List<Branch>) -> nat
    decreases branches,
{
    match branches {
        List::Nil => 0,
        List::Cons(head, tail) => head.2.counter_ops() + branches_counter_ops(*tail),
    }
}

/// Whether a statement of `branches` calls the primitive `op`.
pub open spec fn branches_use(branches: List<Branch>, op: LowLevel) -> bool
    decreases branches,
{
    match branches {
        List::Nil => false,
        List::Cons(head, tail) => head.2.uses(op) || branches_use(*tail, op),
    }
}

/// Whether a statement of `branches` declares a join point.
pub open spec fn branches_have_join(branches: List<Branch>) -> bool
    decreases branches,
{
    match branches {
        List::Nil => false,
        List::Cons(head, tail) => head.2.has_join() || branches_have_join(*tail),
    }
}

/// Whether a statement of `branches` jumps.
pub open spec fn branches_have_jump(branches: List<Branch>) -> bool
    decreases branches,
{
    match branches {
        List::Nil => false,
        List::Cons(head, tail) => head.2.has_jump() || branches_have_jump(*tail),
    }
}

/// Whether every statement of `branches` releases last.
pub open spec fn branches_release_last(branches: List<Branch>) -> bool
    decreases branches,
{
    match branches {
        List::Nil => true,
        List::Cons(head, tail) => head.2.releases_last() && branches_release_last(*tail),
    }
}

/// Number of statements in `branches`.
pub open spec fn branches_size(branches: List<Branch>) -> nat
    decreases branches,
{
    match branches {
        List::Nil => 0,
        List::Cons(head, tail) => head.2.size() + branches_size(*tail),
    }
}

/// The statement of the first of `branches` that is taken on `value`.
pub open spec fn branches_select<'a>(branches: List<'a, Branch<'a>>, value: u64) -> Option<
    Stmt<'a>,
>
    decreases branches,
{
    match branches {
        List::Nil => None,
        List::Cons(head, tail) => if head.0 == value {
            Some(head.2)
        } else {
            branches_select(*tail, value)
        },
    }
}

impl<'a> Stmt<'a> {
    /// Number of helper calls in the statement, over all its branches.
    pub open spec fn helper_calls(self) -> nat
        decreases self,
    {
        match self {
            Stmt::Let(_, expr, _, next) => (if expr.is_helper_call() {
                1nat
            } else {
                0nat
            }) + next.helper_calls(),
            Stmt::Switch { branches, default_branch, .. } => branches_helper_calls(*branches)
                + default_branch.1.helper_calls(),
            Stmt::Ret(_) => 0,
            Stmt::Join { body, remainder, .. } => body.helper_calls() + remainder.helper_calls(),
            Stmt::Jump(_, _) => 0,
        }
    }

    /// Number of calls of counter primitives in the statement, over all its
    /// branches.
    pub open spec fn counter_ops(self) -> nat
        decreases self,
    {
        match self {
            Stmt::Let(_, expr, _, next) => (if expr.touches_counter() {
                1nat
            } else {
                0nat
            }) + next.counter_ops(),
            Stmt::Switch { branches, default_branch, .. } => branches_counter_ops(*branches)
                + default_branch.1.counter_ops(),
            Stmt::Ret(_) => 0,
            Stmt::Join { body, remainder, .. } => body.counter_ops() + remainder.counter_ops(),
            Stmt::Jump(_, _) => 0,
        }
    }

    /// Whether the statement calls the primitive `op` anywhere.
    pub open spec fn uses(self, op: LowLevel) -> bool
        decreases self,
    {
        match self {
            Stmt::Let(_, expr, _, next) => expr.is_lowlevel(op) || next.uses(op),
            Stmt::Switch { branches, default_branch, .. } => branches_use(*branches, op)
                || default_branch.1.uses(op),
            Stmt::Ret(_) => false,
            Stmt::Join { body, remainder, .. } => body.uses(op) || remainder.uses(op),
            Stmt::Jump(_, _) => false,
        }
    }

    /// Whether the statement declares a join point anywhere, as a loop
    /// does.
    pub open spec fn has_join(self) -> bool
        decreases self,
    {
        match self {
            Stmt::Let(_, _, _, next) => next.has_join(),
            Stmt::Switch { branches, default_branch, .. } => branches_have_join(*branches)
                || default_branch.1.has_join(),
            Stmt::Ret(_) => false,
            Stmt::Join { .. } => true,
            Stmt::Jump(_, _) => false,
        }
    }

    /// Whether the statement jumps anywhere.
    pub open spec fn has_jump(self) -> bool
        decreases self,
    {
        match self {
            Stmt::Let(_, _, _, next) => next.has_jump(),
            Stmt::Switch { branches, default_branch, .. } => branches_have_jump(*branches)
                || default_branch.1.has_jump(),
            Stmt::Ret(_) => false,
            Stmt::Join { body, remainder, .. } => body.has_jump() || remainder.has_jump(),
            Stmt::Jump(_, _) => true,
        }
    }

    /// Whether nothing is visited after a release: wherever the statement
    /// calls `RefCountDec`, what follows that call neither calls a helper
    /// nor jumps.
    pub open spec fn releases_last(self) -> bool
        decreases self,
    {
        match self {
            Stmt::Let(_, expr, _, next) => {
                &&& expr.is_lowlevel(LowLevel::RefCountDec) ==> next.helper_calls() == 0
                    && !next.has_jump()
                &&& next.releases_last()
            },
            Stmt::Switch { branches, default_branch, .. } => branches_release_last(*branches)
                && default_branch.1.releases_last(),
            Stmt::Ret(_) => true,
            Stmt::Join { body, remainder, .. } => body.releases_last() && remainder.releases_last(),
            Stmt::Jump(_, _) => true,
        }
    }

    /// Number of statements, each counted once for every place it stands
    /// in.
    pub open spec fn size(self) -> nat
        decreases self,
    {
        match self {
            Stmt::Let(_, _, _, next) => 1 + next.size(),
            Stmt::Switch { branches, default_branch, .. } => 1 + branches_size(*branches)
                + default_branch.1.size(),
            Stmt::Ret(_) => 1,
            Stmt::Join { body, remainder, .. } => 1 + body.size() + remainder.size(),
            Stmt::Jump(_, _) => 1,
        }
    }

    /// The first statement that is not a binding.
    pub open spec fn skip_lets(self) -> Stmt<'a>
        decreases self,
    {
        match self {
            Stmt::Let(_, _, _, next) => next.skip_lets(),
            _ => self,
        }
    }

    /// What the bindings at the head of the statement bind `symbol` to.
    pub open spec fn binding(self, symbol: Symbol) -> Option<Expr<'a>>
        decreases self,
    {
        match self {
            Stmt::Let(bound, expr, _, next) => if bound == symbol {
                Some(expr)
            } else {
                next.binding(symbol)
            },
            _ => None,
        }
    }

    /// The expression that the statement binds the condition of its first
    /// switch to.
    pub open spec fn switch_condition(self) -> Option<Expr<'a>> {
        match self.skip_lets() {
            Stmt::Switch { cond_symbol, .. } => self.binding(cond_symbol),
            _ => None,
        }
    }

    /// The expression that the statement binds argument `i` of the call
    /// `expr` to.
    pub open spec fn operand(self, expr: Expr<'a>, i: nat) -> Option<Expr<'a>> {
        match expr {
            Expr::Call(call) => match call.arguments.get(i) {
                Some(symbol) => self.binding(symbol),
                None => None,
            },
            _ => None,
        }
    }

    /// Where a switch continues when its condition has the value `value`.
    pub open spec fn select(self, value: u64) -> Stmt<'a> {
        match self {
            Stmt::Switch { branches, default_branch, .. } => match branches_select(
                *branches,
                value,
            ) {
                Some(stmt) => stmt,
                None => *default_branch.1,
            },
            _ => self,
        }
    }

    /// Neither a counter primitive nor a helper is called anywhere in the
    /// statement.
    pub open spec fn leaves_counts_alone(self) -> bool {
        self.counter_ops() == 0 && self.helper_calls() == 0
    }
}

} // verus!
