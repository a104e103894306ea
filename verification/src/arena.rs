//! Arena allocation and the arena-allocated sequence used throughout the IR.

use bumpalo::Bump;
use vstd::prelude::*;

verus! {

/// `bumpalo::Bump`, the arena. Nothing is said of what is inside it.
#[verifier::external_type_specification]
#[verifier::external_body]
pub struct ExBump<const MIN_ALIGN: usize>(bumpalo::Bump<MIN_ALIGN>);

/// Moves `val` into the arena and hands back a shared reference to it.
///
/// Trusted: stands for `bumpalo::Bump::alloc`, which writes the value into
/// freshly reserved arena memory and returns an exclusive reference to that
/// copy; the reference is weakened to a shared one here. The contract claims
/// only that the referent is the value passed in. Like any allocation, the
/// call aborts when the arena can reserve no more memory.
#[verifier::external_body]
pub(crate) fn arena_alloc<'a, T>(arena: &'a Bump, val: T) -> (r: &'a T)
    ensures
        *r == val,
{
    arena.alloc(val)
}

/// An immutable singly linked sequence whose cells live in an arena.
#[derive(Clone, Copy, Debug, PartialEq, Eq)]
pub enum List<'a, T> {
    Nil,
    Cons(T, &'a List<'a, T>),
}

impl<'a, T> List<'a, T> {
    /// The sequence of elements, head first.
    pub open spec fn view(self) -> Seq<T>
        decreases self,
    {
        match self {
            List::Nil => Seq::empty(),
            List::Cons(head, tail) => seq![head] + tail.view(),
        }
    }

    /// Number of elements.
    pub open spec fn len(self) -> nat
        decreases self,
    {
        match self {
            List::Nil => 0,
            List::Cons(_, tail) => 1 + tail.len(),
        }
    }

    /// The element at position `i`, if there is one.
    pub open spec fn get(self, i: nat) -> Option<T>
        decreases self,
    {
        match self {
            List::Nil => None,
            List::Cons(head, tail) => if i == 0 {
                Some(head)
            } else {
                tail.get((i - 1) as nat)
            },
        }
    }

    /// Counts the elements, stopping at `cap`.
    pub fn len_capped(&self, cap: u64) -> (n: u64)
        ensures
            n == if self.len() <= cap { self.len() } else { cap as nat },
        decreases *self,
    {
        match self {
            List::Nil => 0,
            List::Cons(_, tail) => {
                if cap == 0 {
                    0
                } else {
                    let rest = tail.len_capped(cap - 1);
                    rest + 1
                }
            },
        }
    }

    /// Whether the list has no elements.
    pub fn is_empty(&self) -> (b: bool)
        ensures
            b == (self.len() == 0),
    {
        match self {
            List::Nil => true,
            List::Cons(_, _) => false,
        }
    }
}

/// Builds an arena list holding the elements of `items`, in order.
pub fn list_from_slice<'a, T: Copy>(arena: &'a Bump, items: &[T]) -> (r: &'a List<'a, T>)
    ensures
        r@ == items@,
{
    let mut acc: &'a List<'a, T> = arena_alloc(arena, List::Nil);
    let mut i: usize = items.len();
    while i > 0
        invariant
            i <= items@.len(),
            acc@ == items@.subrange(i as int, items@.len() as int),
        decreases i,
    {
        i = i - 1;
        let item = items[i];
        let ghost before = acc@;
        acc = arena_alloc(arena, List::Cons(item, acc));
        assert(acc@ =~= seq![item] + before);
        assert(acc@ =~= items@.subrange(i as int, items@.len() as int));
    }
    assert(items@.subrange(0, items@.len() as int) =~= items@);
    acc
}

} // verus!
