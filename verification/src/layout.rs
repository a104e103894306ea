//! Runtime layouts of values and the queries the lowering asks of them.

use crate::arena::List;
use vstd::prelude::*;

verus! {

/// Width and signedness of an integer.
#[derive(Clone, Copy, Debug, PartialEq, Eq, Hash, Structural)]
pub enum IntWidth {
    U8,
    U16,
    U32,
    U64,
    U128,
    I8,
    I16,
    I32,
    I64,
    I128,
}

impl IntWidth {
    pub open spec fn spec_stack_size(&self) -> u32 {
        match self {
            IntWidth::U8 | IntWidth::I8 => 1,
            IntWidth::U16 | IntWidth::I16 => 2,
            IntWidth::U32 | IntWidth::I32 => 4,
            IntWidth::U64 | IntWidth::I64 => 8,
            IntWidth::U128 | IntWidth::I128 => 16,
        }
    }

    /// Size in bytes; integers are aligned to their size.
    #[verifier::when_used_as_spec(spec_stack_size)]
    pub fn stack_size(&self) -> (n: u32)
        ensures
            n == self.spec_stack_size(),
    {
        match self {
            IntWidth::U8 | IntWidth::I8 => 1,
            IntWidth::U16 | IntWidth::I16 => 2,
            IntWidth::U32 | IntWidth::I32 => 4,
            IntWidth::U64 | IntWidth::I64 => 8,
            IntWidth::U128 | IntWidth::I128 => 16,
        }
    }
}

/// Width of a floating-point number.
#[derive(Clone, Copy, Debug, PartialEq, Eq, Hash, Structural)]
pub enum FloatWidth {
    F32,
    F64,
    F128,
}

impl FloatWidth {
    pub open spec fn spec_stack_size(&self) -> u32 {
        match self {
            FloatWidth::F32 => 4,
            FloatWidth::F64 => 8,
            FloatWidth::F128 => 16,
        }
    }

    /// Size in bytes; floats are aligned to their size.
    #[verifier::when_used_as_spec(spec_stack_size)]
    pub fn stack_size(&self) -> (n: u32)
        ensures
            n == self.spec_stack_size(),
    {
        match self {
            FloatWidth::F32 => 4,
            FloatWidth::F64 => 8,
            FloatWidth::F128 => 16,
        }
    }
}

/// The fields of a record or of one constructor.
pub type Fields<'a> = List<'a, Layout<'a>>;

/// The constructors of a union, each with its fields.
pub type Tags<'a> = List<'a, &'a List<'a, Layout<'a>>>;

#[derive(Clone, Copy, Debug, PartialEq, Eq)]
pub enum Builtin<'a> {
    Int(IntWidth),
    Float(FloatWidth),
    Bool,
    Decimal,
    /// `(elements, length)`; a negative length marks a small string that
    /// has no heap block.
    Str,
    Dict(&'a Layout<'a>, &'a Layout<'a>),
    SetOf(&'a Layout<'a>),
    /// `(elements, length)`; an empty list has no heap block.
    List(&'a Layout<'a>),
}

#[allow(inconsistent_fields)]
#[derive(Clone, Copy, Debug, PartialEq, Eq)]
pub enum UnionLayout<'a> {
    /// Lives on the stack, the tag id beside the fields.
    NonRecursive(&'a Tags<'a>),
    /// Every constructor is a heap block.
    Recursive(&'a Tags<'a>),
    /// A single constructor in a heap block.
    NonNullableUnwrapped(&'a Fields<'a>),
    /// One constructor is the null pointer, the others are heap blocks.
    NullableWrapped { nullable_id: u16, other_tags: &'a Tags<'a> },
    /// Two constructors: the null pointer and one heap block.
    NullableUnwrapped { nullable_id: bool, other_fields: &'a Fields<'a> },
}

/// A set of closures that share one runtime representation.
#[derive(Clone, Copy, Debug, PartialEq, Eq)]
pub struct LambdaSet<'a> {
    pub representation: &'a Layout<'a>,
}

#[derive(Clone, Copy, Debug, PartialEq, Eq)]
pub enum Layout<'a> {
    Builtin(Builtin<'a>),
    Struct(&'a Fields<'a>),
    Union(UnionLayout<'a>),
    LambdaSet(LambdaSet<'a>),
    /// Inside a heap union: a pointer to a value of that same union.
    RecursivePointer,
}

/// Largest number of constructors a union can have: tag ids are 16 bits wide.
pub const MAX_TAGS: u64 = 65535;

/// Whether some field of `fields` holds a reference-counted value.
pub open spec fn fields_contain_refcounted(fields: Fields) -> bool
    decreases fields,
{
    match fields {
        List::Nil => false,
        List::Cons(head, tail) => head.spec_contains_refcounted() || fields_contain_refcounted(
            *tail,
        ),
    }
}

/// Whether some field of some constructor holds a reference-counted value.
pub open spec fn tags_contain_refcounted(tags: Tags) -> bool
    decreases tags,
{
    match tags {
        List::Nil => false,
        List::Cons(head, tail) => fields_contain_refcounted(*head) || tags_contain_refcounted(
            *tail,
        ),
    }
}

impl<'a> Builtin<'a> {
    /// Integers, floats, booleans and decimals: plain bits, never counted.
    pub open spec fn spec_is_primitive(&self) -> bool {
        self is Int || self is Float || self is Bool || self is Decimal
    }

    #[verifier::when_used_as_spec(spec_is_primitive)]
    pub fn is_primitive(&self) -> (b: bool)
        ensures
            b == self.spec_is_primitive(),
    {
        match self {
            Builtin::Int(_) | Builtin::Float(_) | Builtin::Bool | Builtin::Decimal => true,
            _ => false,
        }
    }
}

impl<'a> UnionLayout<'a> {
    pub open spec fn spec_is_non_recursive(&self) -> bool {
        self is NonRecursive
    }

    /// Whether values of the union live on the stack.
    #[verifier::when_used_as_spec(spec_is_non_recursive)]
    pub fn is_non_recursive(&self) -> (b: bool)
        ensures
            b == self.spec_is_non_recursive(),
    {
        match self {
            UnionLayout::NonRecursive(_) => true,
            _ => false,
        }
    }

    /// Number of constructors, the null one included.
    pub open spec fn tag_count(&self) -> nat {
        match self {
            UnionLayout::NonRecursive(tags) => tags.len(),
            UnionLayout::Recursive(tags) => tags.len(),
            UnionLayout::NonNullableUnwrapped(_) => 1,
            UnionLayout::NullableWrapped { other_tags, .. } => other_tags.len() + 1,
            UnionLayout::NullableUnwrapped { .. } => 2,
        }
    }

    /// The id of the constructor that is the null pointer, if there is one.
    pub open spec fn spec_null_id(&self) -> Option<u16> {
        match self {
            UnionLayout::NullableWrapped { nullable_id, .. } => Some(*nullable_id),
            UnionLayout::NullableUnwrapped { nullable_id, .. } => Some(
                if *nullable_id {
                    1u16
                } else {
                    0u16
                },
            ),
            _ => None,
        }
    }

    #[verifier::when_used_as_spec(spec_null_id)]
    pub fn null_id(&self) -> (id: Option<u16>)
        ensures
            id == self.spec_null_id(),
    {
        match self {
            UnionLayout::NullableWrapped { nullable_id, .. } => Some(*nullable_id),
            UnionLayout::NullableUnwrapped { nullable_id, .. } => Some(
                if *nullable_id {
                    1
                } else {
                    0
                },
            ),
            _ => None,
        }
    }
}

impl<'a> LambdaSet<'a> {
    pub open spec fn spec_runtime_representation(&self) -> Layout<'a> {
        *self.representation
    }

    /// The layout that closures of this set have at run time.
    #[verifier::when_used_as_spec(spec_runtime_representation)]
    pub fn runtime_representation(&self) -> (l: Layout<'a>)
        ensures
            l == self.spec_runtime_representation(),
    {
        *self.representation
    }
}

impl<'a> Layout<'a> {
    /// The layout with closure sets replaced by what represents them.
    pub open spec fn runtime_layout(&self) -> Layout<'a>
        decreases self,
    {
        match self {
            Layout::LambdaSet(set) => set.representation.runtime_layout(),
            _ => *self,
        }
    }

    /// Whether values of the layout are plain bits at run time.
    pub open spec fn spec_is_primitive(&self) -> bool {
        self.runtime_layout() matches Layout::Builtin(b) && b.spec_is_primitive()
    }

    #[verifier::when_used_as_spec(spec_is_primitive)]
    pub fn is_primitive(&self) -> (b: bool)
        ensures
            b == self.spec_is_primitive(),
        decreases self,
    {
        match self {
            Layout::Builtin(builtin) => builtin.is_primitive(),
            Layout::LambdaSet(set) => set.representation.is_primitive(),
            _ => false,
        }
    }

    /// Whether a value of the layout is itself a counted heap block.
    pub open spec fn spec_is_refcounted(&self) -> bool
        decreases self,
    {
        match self {
            Layout::Builtin(b) => !b.spec_is_primitive(),
            Layout::Struct(_) => false,
            Layout::Union(u) => !(u is NonRecursive),
            Layout::LambdaSet(set) => set.representation.spec_is_refcounted(),
            Layout::RecursivePointer => true,
        }
    }

    #[verifier::when_used_as_spec(spec_is_refcounted)]
    pub fn is_refcounted(&self) -> (b: bool)
        ensures
            b == self.spec_is_refcounted(),
        decreases self,
    {
        match self {
            Layout::Builtin(b) => !b.is_primitive(),
            Layout::Struct(_) => false,
            Layout::Union(u) => !u.is_non_recursive(),
            Layout::LambdaSet(set) => set.representation.is_refcounted(),
            Layout::RecursivePointer => true,
        }
    }

    /// Whether a value of the layout is, or holds somewhere in its stack
    /// representation, a counted heap block.
    pub open spec fn spec_contains_refcounted(&self) -> bool
        decreases self,
    {
        match self {
            Layout::Builtin(b) => !b.spec_is_primitive(),
            Layout::Struct(fields) => fields_contain_refcounted(**fields),
            Layout::Union(UnionLayout::NonRecursive(tags)) => tags_contain_refcounted(**tags),
            Layout::Union(_) => true,
            Layout::LambdaSet(set) => set.representation.spec_contains_refcounted(),
            Layout::RecursivePointer => true,
        }
    }

    #[verifier::when_used_as_spec(spec_contains_refcounted)]
    pub fn contains_refcounted(&self) -> (b: bool)
        ensures
            b == self.spec_contains_refcounted(),
        decreases self,
    {
        match self {
            Layout::Builtin(b) => !b.is_primitive(),
            Layout::Struct(fields) => any_field_refcounted(fields),
            Layout::Union(UnionLayout::NonRecursive(tags)) => any_tag_refcounted(tags),
            Layout::Union(_) => true,
            Layout::LambdaSet(set) => set.representation.contains_refcounted(),
            Layout::RecursivePointer => true,
        }
    }
}

fn any_field_refcounted<'a>(fields: &Fields<'a>) -> (b: bool)
    ensures
        b == fields_contain_refcounted(*fields),
    decreases fields,
{
    match fields {
        List::Nil => false,
        List::Cons(head, tail) => head.contains_refcounted() || any_field_refcounted(tail),
    }
}

fn any_tag_refcounted<'a>(tags: &Tags<'a>) -> (b: bool)
    ensures
        b == tags_contain_refcounted(*tags),
    decreases tags,
{
    match tags {
        List::Nil => false,
        List::Cons(head, tail) => any_field_refcounted(head) || any_tag_refcounted(tail),
    }
}

/// The larger of two byte counts.
pub open spec fn spec_max(a: u32, b: u32) -> u32 {
    if a >= b {
        a
    } else {
        b
    }
}

#[verifier::when_used_as_spec(spec_max)]
pub fn max(a: u32, b: u32) -> (m: u32)
    ensures
        m == spec_max(a, b),
{
    if a >= b {
        a
    } else {
        b
    }
}

/// The strictest stack alignment among `fields`; 0 when there are none.
pub open spec fn fields_alignment(fields: Fields, ptr_size: u32) -> u32
    decreases fields,
{
    match fields {
        List::Nil => 0,
        List::Cons(head, tail) => spec_max(
            head.spec_alignment_bytes(ptr_size),
            fields_alignment(*tail, ptr_size),
        ),
    }
}

/// The strictest stack alignment among the fields of all `tags`.
pub open spec fn tags_alignment(tags: Tags, ptr_size: u32) -> u32
    decreases tags,
{
    match tags {
        List::Nil => 0,
        List::Cons(head, tail) => spec_max(
            fields_alignment(*head, ptr_size),
            tags_alignment(*tail, ptr_size),
        ),
    }
}

/// Whether every constructor of `tags` has fewer than `u64::MAX` fields.
pub open spec fn tags_indexable(tags: Tags) -> bool
    decreases tags,
{
    match tags {
        List::Nil => true,
        List::Cons(head, tail) => head.len() < u64::MAX && tags_indexable(*tail),
    }
}

fn check_tags_indexable<'a>(tags: &Tags<'a>) -> (b: bool)
    ensures
        b == tags_indexable(*tags),
    decreases tags,
{
    match tags {
        List::Nil => true,
        List::Cons(head, tail) => head.len_capped(u64::MAX) < u64::MAX && check_tags_indexable(
            tail,
        ),
    }
}

impl<'a> Builtin<'a> {
    pub open spec fn spec_alignment_bytes(&self, ptr_size: u32) -> u32 {
        match self {
            Builtin::Int(width) => width.spec_stack_size(),
            Builtin::Float(width) => width.spec_stack_size(),
            Builtin::Bool => 1,
            Builtin::Decimal => 16,
            _ => ptr_size,
        }
    }

    /// Alignment of a value on the stack. Strings and collections are
    /// `(pointer, length)` records, aligned like a pointer.
    #[verifier::when_used_as_spec(spec_alignment_bytes)]
    pub fn alignment_bytes(&self, ptr_size: u32) -> (n: u32)
        ensures
            n == self.spec_alignment_bytes(ptr_size),
    {
        match self {
            Builtin::Int(width) => width.stack_size(),
            Builtin::Float(width) => width.stack_size(),
            Builtin::Bool => 1,
            Builtin::Decimal => 16,
            _ => ptr_size,
        }
    }
}

impl<'a> UnionLayout<'a> {
    /// Tag ids and field indices of the union fit the integers that carry
    /// them in the IR.
    pub open spec fn wf(&self) -> bool {
        &&& self.tag_count() <= MAX_TAGS
        &&& match self {
            UnionLayout::NonRecursive(tags) => tags_indexable(**tags),
            UnionLayout::Recursive(tags) => tags_indexable(**tags),
            UnionLayout::NonNullableUnwrapped(fields) => fields.len() < u64::MAX,
            UnionLayout::NullableWrapped { other_tags, .. } => tags_indexable(**other_tags),
            UnionLayout::NullableUnwrapped { other_fields, .. } => other_fields.len() < u64::MAX,
        }
    }

    /// Decides `wf`.
    pub fn check_wf(&self) -> (b: bool)
        ensures
            b == self.wf(),
    {
        match self {
            UnionLayout::NonRecursive(tags) => tags.len_capped(MAX_TAGS + 1) <= MAX_TAGS
                && check_tags_indexable(tags),
            UnionLayout::Recursive(tags) => tags.len_capped(MAX_TAGS + 1) <= MAX_TAGS
                && check_tags_indexable(tags),
            UnionLayout::NonNullableUnwrapped(fields) => fields.len_capped(u64::MAX) < u64::MAX,
            UnionLayout::NullableWrapped { other_tags, .. } => other_tags.len_capped(MAX_TAGS)
                < MAX_TAGS && check_tags_indexable(other_tags),
            UnionLayout::NullableUnwrapped { other_fields, .. } => other_fields.len_capped(
                u64::MAX,
            ) < u64::MAX,
        }
    }

    /// The integer type wide enough for every tag id of the union.
    pub open spec fn spec_tag_id_builtin(&self) -> Builtin<'a> {
        match self {
            UnionLayout::NonNullableUnwrapped(_) | UnionLayout::NullableUnwrapped { .. } => {
                Builtin::Bool
            },
            _ => if self.tag_count() <= 255 {
                Builtin::Int(IntWidth::U8)
            } else {
                Builtin::Int(IntWidth::U16)
            },
        }
    }

    pub open spec fn spec_tag_id_layout(&self) -> Layout<'a> {
        Layout::Builtin(self.spec_tag_id_builtin())
    }

    /// Layout of the value that `GetTagId` yields for the union: a boolean
    /// where there are at most two constructors and one of them has no
    /// fields of its own, else the narrowest unsigned integer.
    #[verifier::when_used_as_spec(spec_tag_id_layout)]
    pub fn tag_id_layout(&self) -> (l: Layout<'a>)
        requires
            self.tag_count() <= MAX_TAGS,
        ensures
            l == self.spec_tag_id_layout(),
    {
        match self {
            UnionLayout::NonRecursive(tags) | UnionLayout::Recursive(tags) => {
                if tags.len_capped(256) <= 255 {
                    Layout::Builtin(Builtin::Int(IntWidth::U8))
                } else {
                    Layout::Builtin(Builtin::Int(IntWidth::U16))
                }
            },
            UnionLayout::NullableWrapped { other_tags, .. } => {
                if other_tags.len_capped(255) <= 254 {
                    Layout::Builtin(Builtin::Int(IntWidth::U8))
                } else {
                    Layout::Builtin(Builtin::Int(IntWidth::U16))
                }
            },
            UnionLayout::NonNullableUnwrapped(_) | UnionLayout::NullableUnwrapped { .. } => {
                Layout::Builtin(Builtin::Bool)
            },
        }
    }

    /// A heap union with fewer constructor blocks than a pointer has bytes
    /// keeps its tag id in the low bits of the pointer.
    pub open spec fn spec_stores_tag_id_in_pointer(&self, ptr_size: u32) -> bool {
        match self {
            UnionLayout::Recursive(tags) => tags.len() < ptr_size,
            UnionLayout::NullableWrapped { other_tags, .. } => other_tags.len() < ptr_size,
            _ => false,
        }
    }

    #[verifier::when_used_as_spec(spec_stores_tag_id_in_pointer)]
    pub fn stores_tag_id_in_pointer(&self, ptr_size: u32) -> (b: bool)
        ensures
            b == self.spec_stores_tag_id_in_pointer(ptr_size),
    {
        match self {
            UnionLayout::Recursive(tags) => tags.len_capped(ptr_size as u64) < ptr_size as u64,
            UnionLayout::NullableWrapped { other_tags, .. } => other_tags.len_capped(
                ptr_size as u64,
            ) < ptr_size as u64,
            _ => false,
        }
    }

    /// Alignment of the heap block of a constructor: that of its strictest
    /// field, and at least that of the counter in front of it.
    pub open spec fn spec_allocation_alignment_bytes(&self, ptr_size: u32) -> u32 {
        match self {
            UnionLayout::NonRecursive(_) => ptr_size,
            UnionLayout::Recursive(tags) => spec_max(ptr_size, tags_alignment(**tags, ptr_size)),
            UnionLayout::NonNullableUnwrapped(fields) => spec_max(
                ptr_size,
                fields_alignment(**fields, ptr_size),
            ),
            UnionLayout::NullableWrapped { other_tags, .. } => spec_max(
                ptr_size,
                tags_alignment(**other_tags, ptr_size),
            ),
            UnionLayout::NullableUnwrapped { other_fields, .. } => spec_max(
                ptr_size,
                fields_alignment(**other_fields, ptr_size),
            ),
        }
    }

    #[verifier::when_used_as_spec(spec_allocation_alignment_bytes)]
    pub fn allocation_alignment_bytes(&self, ptr_size: u32) -> (n: u32)
        ensures
            n == self.spec_allocation_alignment_bytes(ptr_size),
    {
        match self {
            UnionLayout::NonRecursive(_) => ptr_size,
            UnionLayout::Recursive(tags) => max(ptr_size, compute_tags_alignment(tags, ptr_size)),
            UnionLayout::NonNullableUnwrapped(fields) => max(
                ptr_size,
                compute_fields_alignment(fields, ptr_size),
            ),
            UnionLayout::NullableWrapped { other_tags, .. } => max(
                ptr_size,
                compute_tags_alignment(other_tags, ptr_size),
            ),
            UnionLayout::NullableUnwrapped { other_fields, .. } => max(
                ptr_size,
                compute_fields_alignment(other_fields, ptr_size),
            ),
        }
    }
}

impl<'a> Layout<'a> {
    /// Tag ids and field indices at the top of the layout fit the integers
    /// that carry them in the IR.
    pub open spec fn wf(&self) -> bool
        decreases self,
    {
        match self {
            Layout::Struct(fields) => fields.len() < u64::MAX,
            Layout::Union(union_layout) => union_layout.wf(),
            Layout::LambdaSet(set) => set.representation.wf(),
            _ => true,
        }
    }

    /// Decides `wf`.
    pub fn check_wf(&self) -> (b: bool)
        ensures
            b == self.wf(),
        decreases self,
    {
        match self {
            Layout::Struct(fields) => fields.len_capped(u64::MAX) < u64::MAX,
            Layout::Union(union_layout) => union_layout.check_wf(),
            Layout::LambdaSet(set) => set.representation.check_wf(),
            _ => true,
        }
    }

    pub open spec fn spec_alignment_bytes(&self, ptr_size: u32) -> u32
        decreases self,
    {
        match self {
            Layout::Builtin(builtin) => builtin.spec_alignment_bytes(ptr_size),
            Layout::Struct(fields) => fields_alignment(**fields, ptr_size),
            Layout::Union(UnionLayout::NonRecursive(tags)) => spec_max(
                tags_alignment(**tags, ptr_size),
                if tags.len() <= 255 {
                    1u32
                } else {
                    2u32
                },
            ),
            Layout::Union(_) => ptr_size,
            Layout::LambdaSet(set) => set.representation.spec_alignment_bytes(ptr_size),
            Layout::RecursivePointer => ptr_size,
        }
    }

    /// Alignment of a value of the layout on the stack, in bytes.
    #[verifier::when_used_as_spec(spec_alignment_bytes)]
    pub fn alignment_bytes(&self, ptr_size: u32) -> (n: u32)
        ensures
            n == self.spec_alignment_bytes(ptr_size),
        decreases self,
    {
        match self {
            Layout::Builtin(builtin) => builtin.alignment_bytes(ptr_size),
            Layout::Struct(fields) => compute_fields_alignment(fields, ptr_size),
            Layout::Union(UnionLayout::NonRecursive(tags)) => max(
                compute_tags_alignment(tags, ptr_size),
                if tags.len_capped(256) <= 255 {
                    1
                } else {
                    2
                },
            ),
            Layout::Union(_) => ptr_size,
            Layout::LambdaSet(set) => set.representation.alignment_bytes(ptr_size),
            Layout::RecursivePointer => ptr_size,
        }
    }

    /// Alignment of the heap block that a value of the layout points to: at
    /// least that of the counter that precedes the data, and that of the
    /// strictest thing stored in the block. For a layout that has no heap
    /// block it is the pointer size.
    pub open spec fn spec_allocation_alignment_bytes(&self, ptr_size: u32) -> u32
        decreases self,
    {
        match self {
            Layout::Builtin(Builtin::List(elem)) => spec_max(
                ptr_size,
                elem.spec_alignment_bytes(ptr_size),
            ),
            Layout::Builtin(Builtin::SetOf(key)) => spec_max(
                ptr_size,
                key.spec_alignment_bytes(ptr_size),
            ),
            Layout::Builtin(Builtin::Dict(key, value)) => spec_max(
                ptr_size,
                spec_max(key.spec_alignment_bytes(ptr_size), value.spec_alignment_bytes(ptr_size)),
            ),
            Layout::Union(union_layout) => union_layout.spec_allocation_alignment_bytes(ptr_size),
            Layout::LambdaSet(set) => set.representation.spec_allocation_alignment_bytes(ptr_size),
            _ => ptr_size,
        }
    }

    #[verifier::when_used_as_spec(spec_allocation_alignment_bytes)]
    pub fn allocation_alignment_bytes(&self, ptr_size: u32) -> (n: u32)
        ensures
            n == self.spec_allocation_alignment_bytes(ptr_size),
        decreases self,
    {
        match self {
            Layout::Builtin(Builtin::List(elem)) => max(ptr_size, elem.alignment_bytes(ptr_size)),
            Layout::Builtin(Builtin::SetOf(key)) => max(ptr_size, key.alignment_bytes(ptr_size)),
            Layout::Builtin(Builtin::Dict(key, value)) => max(
                ptr_size,
                max(key.alignment_bytes(ptr_size), value.alignment_bytes(ptr_size)),
            ),
            Layout::Union(union_layout) => union_layout.allocation_alignment_bytes(ptr_size),
            Layout::LambdaSet(set) => set.representation.allocation_alignment_bytes(ptr_size),
            _ => ptr_size,
        }
    }
}

fn compute_fields_alignment<'a>(fields: &Fields<'a>, ptr_size: u32) -> (n: u32)
    ensures
        n == fields_alignment(*fields, ptr_size),
    decreases fields,
{
    match fields {
        List::Nil => 0,
        List::Cons(head, tail) => max(
            head.alignment_bytes(ptr_size),
            compute_fields_alignment(tail, ptr_size),
        ),
    }
}

fn compute_tags_alignment<'a>(tags: &Tags<'a>, ptr_size: u32) -> (n: u32)
    ensures
        n == tags_alignment(*tags, ptr_size),
    decreases tags,
{
    match tags {
        List::Nil => 0,
        List::Cons(head, tail) => max(
            compute_fields_alignment(head, ptr_size),
            compute_tags_alignment(tail, ptr_size),
        ),
    }
}

/// `width` rounded up to the next multiple of `alignment`; unchanged when
/// `alignment` is 0.
pub open spec fn round_up_to_alignment(width: nat, alignment: nat) -> nat {
    if alignment != 0 && width % alignment > 0 {
        (width + alignment - width % alignment) as nat
    } else {
        width
    }
}

/// Sum of the stack sizes of `fields`.
pub open spec fn fields_size(fields: Fields, ptr_size: u32) -> nat
    decreases fields, 0nat,
{
    match fields {
        List::Nil => 0,
        List::Cons(head, tail) => head.spec_stack_size(ptr_size) + fields_size(*tail, ptr_size),
    }
}

/// Size of the largest constructor of `tags`.
pub open spec fn tags_max_size(tags: Tags, ptr_size: u32) -> nat
    decreases tags, 0nat,
{
    match tags {
        List::Nil => 0,
        List::Cons(head, tail) => {
            let first = fields_size(*head, ptr_size);
            let rest = tags_max_size(*tail, ptr_size);
            if first >= rest {
                first
            } else {
                rest
            }
        },
    }
}

impl<'a> Builtin<'a> {
    /// Size of a value on the stack, in bytes. Strings and lists are two
    /// words, dictionaries and sets three.
    pub open spec fn spec_stack_size(&self, ptr_size: u32) -> nat {
        match self {
            Builtin::Int(width) => width.spec_stack_size() as nat,
            Builtin::Float(width) => width.spec_stack_size() as nat,
            Builtin::Bool => 1,
            Builtin::Decimal => 16,
            Builtin::Str | Builtin::List(_) => 2 * (ptr_size as nat),
            Builtin::Dict(_, _) | Builtin::SetOf(_) => 3 * (ptr_size as nat),
        }
    }

    /// `spec_stack_size`, or `None` where it does not fit in 32 bits.
    pub fn checked_stack_size(&self, ptr_size: u32) -> (r: Option<u32>)
        ensures
            match r {
                Some(n) => n == self.spec_stack_size(ptr_size),
                None => self.spec_stack_size(ptr_size) > u32::MAX,
            },
    {
        match self {
            Builtin::Int(width) => Some(width.stack_size()),
            Builtin::Float(width) => Some(width.stack_size()),
            Builtin::Bool => Some(1),
            Builtin::Decimal => Some(16),
            Builtin::Str | Builtin::List(_) => ptr_size.checked_mul(2),
            Builtin::Dict(_, _) | Builtin::SetOf(_) => ptr_size.checked_mul(3),
        }
    }
}

impl<'a> Layout<'a> {
    /// Size before the final rounding to the layout's own alignment.
    pub open spec fn raw_size(&self, ptr_size: u32) -> nat
        decreases self, 0nat,
    {
        match self {
            Layout::Builtin(builtin) => builtin.spec_stack_size(ptr_size),
            Layout::Struct(fields) => fields_size(**fields, ptr_size),
            Layout::Union(UnionLayout::NonRecursive(tags)) => {
                let id_size: nat = if tags.len() <= 255 {
                    1
                } else {
                    2
                };
                round_up_to_alignment(tags_max_size(**tags, ptr_size), id_size) + id_size
            },
            Layout::Union(_) => ptr_size as nat,
            Layout::LambdaSet(set) => set.representation.raw_size(ptr_size),
            Layout::RecursivePointer => ptr_size as nat,
        }
    }

    /// Size of a value of the layout on the stack, in bytes: a record is the
    /// sum of its fields; a stack union is its largest constructor followed
    /// by the tag id; a heap union is a pointer. The sum is rounded up to
    /// the alignment of the layout.
    pub open spec fn spec_stack_size(&self, ptr_size: u32) -> nat
        decreases self, 1nat,
    {
        round_up_to_alignment(self.raw_size(ptr_size), self.spec_alignment_bytes(ptr_size) as nat)
    }

    fn checked_raw_size(&self, ptr_size: u32) -> (r: Option<u32>)
        ensures
            match r {
                Some(n) => n == self.raw_size(ptr_size),
                None => self.raw_size(ptr_size) > u32::MAX,
            },
        decreases self, 0nat,
    {
        match self {
            Layout::Builtin(builtin) => builtin.checked_stack_size(ptr_size),
            Layout::Struct(fields) => checked_fields_size(fields, ptr_size),
            Layout::Union(UnionLayout::NonRecursive(tags)) => {
                let id_size: u32 = if tags.len_capped(256) <= 255 {
                    1
                } else {
                    2
                };
                match checked_tags_max_size(tags, ptr_size) {
                    None => None,
                    Some(payload) => match checked_round_up(payload, id_size) {
                        None => None,
                        Some(rounded) => rounded.checked_add(id_size),
                    },
                }
            },
            Layout::Union(_) => Some(ptr_size),
            Layout::LambdaSet(set) => set.representation.checked_raw_size(ptr_size),
            Layout::RecursivePointer => Some(ptr_size),
        }
    }

    /// `spec_stack_size`, or `None` where it does not fit in 32 bits.
    pub fn checked_stack_size(&self, ptr_size: u32) -> (r: Option<u32>)
        ensures
            match r {
                Some(n) => n == self.spec_stack_size(ptr_size),
                None => self.spec_stack_size(ptr_size) > u32::MAX,
            },
        decreases self, 1nat,
    {
        match self.checked_raw_size(ptr_size) {
            None => None,
            Some(raw) => checked_round_up(raw, self.alignment_bytes(ptr_size)),
        }
    }

    /// Size of a value of the layout on the stack, in bytes.
    pub fn stack_size(&self, ptr_size: u32) -> (n: u32)
        requires
            self.spec_stack_size(ptr_size) <= u32::MAX,
        ensures
            n == self.spec_stack_size(ptr_size),
    {
        match self.checked_stack_size(ptr_size) {
            Some(n) => n,
            None => 0,
        }
    }
}

fn checked_round_up(width: u32, alignment: u32) -> (r: Option<u32>)
    ensures
        round_up_to_alignment(width as nat, alignment as nat) >= width,
        match r {
            Some(n) => n == round_up_to_alignment(width as nat, alignment as nat),
            None => round_up_to_alignment(width as nat, alignment as nat) > u32::MAX,
        },
{
    if alignment != 0 && width % alignment > 0 {
        let rem = width % alignment;
        width.checked_add(alignment - rem)
    } else {
        Some(width)
    }
}

fn checked_fields_size<'a>(fields: &Fields<'a>, ptr_size: u32) -> (r: Option<u32>)
    ensures
        match r {
            Some(n) => n == fields_size(*fields, ptr_size),
            None => fields_size(*fields, ptr_size) > u32::MAX,
        },
    decreases fields, 0nat,
{
    match fields {
        List::Nil => Some(0),
        List::Cons(head, tail) => match head.checked_stack_size(ptr_size) {
            None => None,
            Some(first) => match checked_fields_size(tail, ptr_size) {
                None => None,
                Some(rest) => first.checked_add(rest),
            },
        },
    }
}

fn checked_tags_max_size<'a>(tags: &Tags<'a>, ptr_size: u32) -> (r: Option<u32>)
    ensures
        match r {
            Some(n) => n == tags_max_size(*tags, ptr_size),
            None => tags_max_size(*tags, ptr_size) > u32::MAX,
        },
    decreases tags, 0nat,
{
    match tags {
        List::Nil => Some(0),
        List::Cons(head, tail) => match checked_fields_size(head, ptr_size) {
            None => None,
            Some(first) => match checked_tags_max_size(tail, ptr_size) {
                None => None,
                Some(rest) => Some(max(first, rest)),
            },
        },
    }
}

/// Structural equality of two field lists.
pub fn fields_eq<'a>(a: &Fields<'a>, b: &Fields<'a>) -> (r: bool)
    ensures
        r == (*a == *b),
    decreases a,
{
    match (a, b) {
        (List::Nil, List::Nil) => true,
        (List::Cons(x, xs), List::Cons(y, ys)) => layout_eq(x, y) && fields_eq(xs, ys),
        _ => false,
    }
}

/// Structural equality of two constructor lists.
pub fn tags_eq<'a>(a: &Tags<'a>, b: &Tags<'a>) -> (r: bool)
    ensures
        r == (*a == *b),
    decreases a,
{
    match (a, b) {
        (List::Nil, List::Nil) => true,
        (List::Cons(x, xs), List::Cons(y, ys)) => fields_eq(x, y) && tags_eq(xs, ys),
        _ => false,
    }
}

/// Structural equality of two union layouts.
pub fn union_eq<'a>(a: &UnionLayout<'a>, b: &UnionLayout<'a>) -> (r: bool)
    ensures
        r == (*a == *b),
    decreases a,
{
    match (a, b) {
        (UnionLayout::NonRecursive(x), UnionLayout::NonRecursive(y)) => tags_eq(x, y),
        (UnionLayout::Recursive(x), UnionLayout::Recursive(y)) => tags_eq(x, y),
        (UnionLayout::NonNullableUnwrapped(x), UnionLayout::NonNullableUnwrapped(y)) => fields_eq(
            x,
            y,
        ),
        (
            UnionLayout::NullableWrapped { nullable_id: i, other_tags: x },
            UnionLayout::NullableWrapped { nullable_id: j, other_tags: y },
        ) => *i == *j && tags_eq(x, y),
        (
            UnionLayout::NullableUnwrapped { nullable_id: i, other_fields: x },
            UnionLayout::NullableUnwrapped { nullable_id: j, other_fields: y },
        ) => *i == *j && fields_eq(x, y),
        _ => false,
    }
}

/// Structural equality of two layouts: the same shape with the same
/// parts, wherever in the arena they were allocated.
pub fn layout_eq<'a>(a: &Layout<'a>, b: &Layout<'a>) -> (r: bool)
    ensures
        r == (*a == *b),
    decreases a,
{
    match (a, b) {
        (Layout::Builtin(x), Layout::Builtin(y)) => match (x, y) {
            (Builtin::Int(v), Builtin::Int(w)) => *v == *w,
            (Builtin::Float(v), Builtin::Float(w)) => *v == *w,
            (Builtin::Bool, Builtin::Bool) => true,
            (Builtin::Decimal, Builtin::Decimal) => true,
            (Builtin::Str, Builtin::Str) => true,
            (Builtin::Dict(k, v), Builtin::Dict(l, w)) => layout_eq(k, l) && layout_eq(v, w),
            (Builtin::SetOf(k), Builtin::SetOf(l)) => layout_eq(k, l),
            (Builtin::List(e), Builtin::List(f)) => layout_eq(e, f),
            _ => false,
        },
        (Layout::Struct(x), Layout::Struct(y)) => fields_eq(x, y),
        (Layout::Union(x), Layout::Union(y)) => union_eq(x, y),
        (Layout::LambdaSet(x), Layout::LambdaSet(y)) => layout_eq(
            x.representation,
            y.representation,
        ),
        (Layout::RecursivePointer, Layout::RecursivePointer) => true,
        _ => false,
    }
}

} // verus!
