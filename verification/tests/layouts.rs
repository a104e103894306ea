use bumpalo::Bump;
use refcount_codegen::arena::list_from_slice;
use refcount_codegen::arena::List;
use refcount_codegen::layout::fields_eq;
use refcount_codegen::layout::layout_eq;
use refcount_codegen::layout::max;
use refcount_codegen::layout::tags_eq;
use refcount_codegen::layout::union_eq;
use refcount_codegen::layout::Builtin;
use refcount_codegen::layout::FloatWidth;
use refcount_codegen::layout::IntWidth;
use refcount_codegen::layout::LambdaSet;
use refcount_codegen::layout::Layout;
use refcount_codegen::layout::UnionLayout;
use refcount_codegen::refcount::is_rc_implemented_yet;

fn int_of<'a>(width: IntWidth) -> Layout<'a> {
    Layout::Builtin(Builtin::Int(width))
}

fn string<'a>() -> Layout<'a> {
    Layout::Builtin(Builtin::Str)
}

fn list_of<'a>(arena: &'a Bump, elem: Layout<'a>) -> Layout<'a> {
    Layout::Builtin(Builtin::List(arena.alloc(elem)))
}

fn record<'a>(arena: &'a Bump, fields: &[Layout<'a>]) -> Layout<'a> {
    Layout::Struct(list_from_slice(arena, fields))
}

fn tags<'a>(arena: &'a Bump, tags: &[&[Layout<'a>]]) -> &'a List<'a, &'a List<'a, Layout<'a>>> {
    let lists: Vec<&'a List<'a, Layout<'a>>> =
        tags.iter().map(|fields| list_from_slice(arena, fields)).collect();
    list_from_slice(arena, &lists)
}

#[test]
fn list_from_slice_keeps_order_and_length() {
    let arena = Bump::new();
    let list = list_from_slice(&arena, &[10u32, 20, 30]);
    assert_eq!(*list, List::Cons(10, &List::Cons(20, &List::Cons(30, &List::Nil))));
    assert_eq!(list.len_capped(10), 3);
    assert_eq!(list.len_capped(2), 2);
    assert_eq!(list.len_capped(0), 0);
    assert!(!list.is_empty());
    let empty: &List<u32> = list_from_slice(&arena, &[]);
    assert_eq!(*empty, List::Nil);
    assert!(empty.is_empty());
    assert_eq!(empty.len_capped(5), 0);
}

#[test]
fn widths_have_their_size_in_bytes() {
    assert_eq!(IntWidth::U8.stack_size(), 1);
    assert_eq!(IntWidth::I16.stack_size(), 2);
    assert_eq!(IntWidth::U32.stack_size(), 4);
    assert_eq!(IntWidth::I64.stack_size(), 8);
    assert_eq!(IntWidth::U128.stack_size(), 16);
    assert_eq!(FloatWidth::F32.stack_size(), 4);
    assert_eq!(FloatWidth::F64.stack_size(), 8);
    assert_eq!(FloatWidth::F128.stack_size(), 16);
    assert_eq!(max(3, 9), 9);
    assert_eq!(max(9, 3), 9);
}

#[test]
fn stack_alignment_is_that_of_the_strictest_part() {
    let arena = Bump::new();
    assert_eq!(int_of(IntWidth::I64).alignment_bytes(8), 8);
    assert_eq!(Layout::Builtin(Builtin::Bool).alignment_bytes(8), 1);
    assert_eq!(Layout::Builtin(Builtin::Decimal).alignment_bytes(8), 16);
    assert_eq!(string().alignment_bytes(8), 8);
    assert_eq!(string().alignment_bytes(4), 4);
    assert_eq!(list_of(&arena, int_of(IntWidth::I128)).alignment_bytes(8), 8);
    assert_eq!(record(&arena, &[]).alignment_bytes(8), 0);
    assert_eq!(record(&arena, &[int_of(IntWidth::I8), int_of(IntWidth::I32)]).alignment_bytes(8), 4);
    let stack_union = Layout::Union(UnionLayout::NonRecursive(tags(
        &arena,
        &[&[int_of(IntWidth::I16)], &[]],
    )));
    assert_eq!(stack_union.alignment_bytes(8), 2);
    let bare = Layout::Union(UnionLayout::NonRecursive(tags(&arena, &[&[], &[]])));
    assert_eq!(bare.alignment_bytes(8), 1);
    let heap = Layout::Union(UnionLayout::Recursive(tags(&arena, &[&[int_of(IntWidth::I128)]])));
    assert_eq!(heap.alignment_bytes(8), 8);
    assert_eq!(Layout::RecursivePointer.alignment_bytes(4), 4);
    let closure = Layout::LambdaSet(LambdaSet { representation: arena.alloc(int_of(IntWidth::I16)) });
    assert_eq!(closure.alignment_bytes(8), 2);
}

#[test]
fn allocation_alignment_is_at_least_the_pointer_size() {
    let arena = Bump::new();
    assert_eq!(string().allocation_alignment_bytes(8), 8);
    assert_eq!(list_of(&arena, int_of(IntWidth::I8)).allocation_alignment_bytes(8), 8);
    assert_eq!(list_of(&arena, int_of(IntWidth::I128)).allocation_alignment_bytes(8), 16);
    assert_eq!(list_of(&arena, int_of(IntWidth::I64)).allocation_alignment_bytes(4), 8);
    let set = Layout::Builtin(Builtin::SetOf(arena.alloc(int_of(IntWidth::U128))));
    assert_eq!(set.allocation_alignment_bytes(8), 16);
    let dict = Layout::Builtin(Builtin::Dict(
        arena.alloc(int_of(IntWidth::U8)),
        arena.alloc(Layout::Builtin(Builtin::Decimal)),
    ));
    assert_eq!(dict.allocation_alignment_bytes(8), 16);
    let cons = UnionLayout::NullableUnwrapped {
        nullable_id: false,
        other_fields: list_from_slice(&arena, &[string(), Layout::RecursivePointer]),
    };
    assert_eq!(cons.allocation_alignment_bytes(8), 8);
    assert_eq!(Layout::Union(cons).allocation_alignment_bytes(8), 8);
    let wide = UnionLayout::Recursive(tags(
        &arena,
        &[&[int_of(IntWidth::I8)], &[Layout::Builtin(Builtin::Decimal)]],
    ));
    assert_eq!(wide.allocation_alignment_bytes(8), 16);
    let boxed = UnionLayout::NonNullableUnwrapped(list_from_slice(&arena, &[int_of(IntWidth::I128)]));
    assert_eq!(boxed.allocation_alignment_bytes(4), 16);
    let wrapped = UnionLayout::NullableWrapped {
        nullable_id: 0,
        other_tags: tags(&arena, &[&[int_of(IntWidth::I16)]]),
    };
    assert_eq!(wrapped.allocation_alignment_bytes(4), 4);
    let stack = UnionLayout::NonRecursive(tags(&arena, &[&[int_of(IntWidth::I128)]]));
    assert_eq!(stack.allocation_alignment_bytes(8), 8);
    assert_eq!(record(&arena, &[int_of(IntWidth::I128)]).allocation_alignment_bytes(8), 8);
}

#[test]
fn stack_size_sums_fields_and_rounds_to_the_alignment() {
    let arena = Bump::new();
    assert_eq!(string().stack_size(8), 16);
    assert_eq!(string().stack_size(4), 8);
    assert_eq!(list_of(&arena, string()).stack_size(8), 16);
    let dict = Layout::Builtin(Builtin::Dict(arena.alloc(string()), arena.alloc(string())));
    assert_eq!(dict.stack_size(8), 24);
    assert_eq!(Layout::Builtin(Builtin::Decimal).stack_size(8), 16);
    assert_eq!(Layout::Builtin(Builtin::Bool).stack_size(8), 1);
    assert_eq!(record(&arena, &[]).stack_size(8), 0);
    assert_eq!(record(&arena, &[int_of(IntWidth::I8), int_of(IntWidth::I64)]).stack_size(8), 16);
    assert_eq!(record(&arena, &[int_of(IntWidth::I8), int_of(IntWidth::I8)]).stack_size(8), 2);
    assert_eq!(record(&arena, &[string(), int_of(IntWidth::I32)]).stack_size(8), 24);
    let stack_union = Layout::Union(UnionLayout::NonRecursive(tags(
        &arena,
        &[&[int_of(IntWidth::I64), int_of(IntWidth::I64)], &[int_of(IntWidth::I8)]],
    )));
    assert_eq!(stack_union.stack_size(8), 24);
    let heap = Layout::Union(UnionLayout::Recursive(tags(&arena, &[&[string(), string()]])));
    assert_eq!(heap.stack_size(8), 8);
    assert_eq!(Layout::RecursivePointer.stack_size(4), 4);
    let closure = Layout::LambdaSet(LambdaSet { representation: arena.alloc(string()) });
    assert_eq!(closure.stack_size(8), 16);
    assert_eq!(string().checked_stack_size(8), Some(16));
}

#[test]
fn checked_stack_size_reports_what_does_not_fit() {
    let arena = Bump::new();
    assert_eq!(string().checked_stack_size(3_000_000_000), None);
    assert_eq!(string().checked_stack_size(2_147_483_647), Some(4_294_967_294));
    let pair = record(&arena, &[string(), string()]);
    assert_eq!(pair.checked_stack_size(1 << 30), None);
    assert_eq!(pair.checked_stack_size(1 << 29), Some(1 << 31));
    let odd = record(&arena, &[int_of(IntWidth::I8), Layout::RecursivePointer]);
    assert_eq!(odd.checked_stack_size(4_294_967_295), None);
    assert_eq!(Builtin::Str.checked_stack_size(8), Some(16));
    let dict = Builtin::Dict(arena.alloc(string()), arena.alloc(string()));
    assert_eq!(dict.checked_stack_size(2_000_000_000), None);
}

#[test]
fn tag_id_layout_is_the_narrowest_that_fits() {
    let arena = Bump::new();
    let two = UnionLayout::Recursive(tags(&arena, &[&[], &[]]));
    assert_eq!(two.tag_id_layout(), int_of(IntWidth::U8));
    let many: Vec<&[Layout]> = vec![&[]; 256];
    let wide = UnionLayout::NonRecursive(tags(&arena, &many));
    assert_eq!(wide.tag_id_layout(), int_of(IntWidth::U16));
    let edge: Vec<&[Layout]> = vec![&[]; 255];
    assert_eq!(UnionLayout::NonRecursive(tags(&arena, &edge)).tag_id_layout(), int_of(IntWidth::U8));
    let wrapped = UnionLayout::NullableWrapped { nullable_id: 0, other_tags: tags(&arena, &edge) };
    assert_eq!(wrapped.tag_id_layout(), int_of(IntWidth::U16));
    let boxed = UnionLayout::NonNullableUnwrapped(list_from_slice(&arena, &[string()]));
    assert_eq!(boxed.tag_id_layout(), Layout::Builtin(Builtin::Bool));
    let cons = UnionLayout::NullableUnwrapped {
        nullable_id: true,
        other_fields: list_from_slice(&arena, &[string()]),
    };
    assert_eq!(cons.tag_id_layout(), Layout::Builtin(Builtin::Bool));
    assert_eq!(cons.null_id(), Some(1));
    assert_eq!(wrapped.null_id(), Some(0));
    assert_eq!(two.null_id(), None);
}

#[test]
fn tag_id_is_in_the_pointer_when_constructors_are_fewer_than_pointer_bytes() {
    let arena = Bump::new();
    let seven: Vec<&[Layout]> = vec![&[]; 7];
    let eight: Vec<&[Layout]> = vec![&[]; 8];
    assert!(UnionLayout::Recursive(tags(&arena, &seven)).stores_tag_id_in_pointer(8));
    assert!(!UnionLayout::Recursive(tags(&arena, &eight)).stores_tag_id_in_pointer(8));
    assert!(!UnionLayout::Recursive(tags(&arena, &seven)).stores_tag_id_in_pointer(4));
    let wrapped = UnionLayout::NullableWrapped { nullable_id: 2, other_tags: tags(&arena, &seven) };
    assert!(wrapped.stores_tag_id_in_pointer(8));
    assert!(!UnionLayout::NonRecursive(tags(&arena, &seven)).stores_tag_id_in_pointer(8));
    let boxed = UnionLayout::NonNullableUnwrapped(list_from_slice(&arena, &[string()]));
    assert!(!boxed.stores_tag_id_in_pointer(8));
    let cons = UnionLayout::NullableUnwrapped {
        nullable_id: false,
        other_fields: list_from_slice(&arena, &[string()]),
    };
    assert!(!cons.stores_tag_id_in_pointer(8));
}

#[test]
fn counted_layouts_are_told_from_plain_ones() {
    let arena = Bump::new();
    assert!(int_of(IntWidth::I64).is_primitive());
    assert!(Builtin::Decimal.is_primitive());
    assert!(!string().is_primitive());
    let closure_of_int = Layout::LambdaSet(LambdaSet { representation: arena.alloc(int_of(IntWidth::U8)) });
    assert!(closure_of_int.is_primitive());
    assert!(!closure_of_int.contains_refcounted());

    assert!(string().is_refcounted());
    assert!(list_of(&arena, int_of(IntWidth::I64)).is_refcounted());
    assert!(Layout::RecursivePointer.is_refcounted());
    assert!(!int_of(IntWidth::I64).is_refcounted());

    let plain = record(&arena, &[int_of(IntWidth::I64), Layout::Builtin(Builtin::Bool)]);
    assert!(!plain.is_refcounted());
    assert!(!plain.contains_refcounted());
    let mixed = record(&arena, &[int_of(IntWidth::I64), string()]);
    assert!(!mixed.is_refcounted());
    assert!(mixed.contains_refcounted());

    let stack = UnionLayout::NonRecursive(tags(&arena, &[&[int_of(IntWidth::I8)], &[string()]]));
    assert!(stack.is_non_recursive());
    assert!(!Layout::Union(stack).is_refcounted());
    assert!(Layout::Union(stack).contains_refcounted());
    let plain_union = UnionLayout::NonRecursive(tags(&arena, &[&[int_of(IntWidth::I8)], &[]]));
    assert!(!Layout::Union(plain_union).contains_refcounted());
    let heap = UnionLayout::Recursive(tags(&arena, &[&[int_of(IntWidth::I8)]]));
    assert!(!heap.is_non_recursive());
    assert!(Layout::Union(heap).is_refcounted());
    assert!(Layout::Union(heap).contains_refcounted());
    let closure = LambdaSet { representation: arena.alloc(Layout::Union(heap)) };
    assert_eq!(closure.runtime_representation(), Layout::Union(heap));
    assert!(Layout::LambdaSet(closure).is_refcounted());
}

#[test]
fn layouts_are_equal_by_structure() {
    let a = Bump::new();
    let b = Bump::new();
    let left = Layout::Union(UnionLayout::NullableWrapped {
        nullable_id: 1,
        other_tags: tags(&a, &[&[string(), Layout::RecursivePointer], &[int_of(IntWidth::I64)]]),
    });
    let right = Layout::Union(UnionLayout::NullableWrapped {
        nullable_id: 1,
        other_tags: tags(&b, &[&[string(), Layout::RecursivePointer], &[int_of(IntWidth::I64)]]),
    });
    let other_id = Layout::Union(UnionLayout::NullableWrapped {
        nullable_id: 2,
        other_tags: tags(&b, &[&[string(), Layout::RecursivePointer], &[int_of(IntWidth::I64)]]),
    });
    let other_field = Layout::Union(UnionLayout::NullableWrapped {
        nullable_id: 1,
        other_tags: tags(&b, &[&[string(), Layout::RecursivePointer], &[int_of(IntWidth::U64)]]),
    });
    assert!(layout_eq(&left, &right));
    assert!(!layout_eq(&left, &other_id));
    assert!(!layout_eq(&left, &other_field));
    assert!(!layout_eq(&left, &string()));
    assert!(layout_eq(&list_of(&a, string()), &list_of(&b, string())));
    assert!(!layout_eq(&list_of(&a, string()), &list_of(&b, int_of(IntWidth::I8))));
    assert!(layout_eq(&record(&a, &[]), &record(&b, &[])));
    assert!(!layout_eq(&record(&a, &[string()]), &record(&b, &[string(), string()])));
    assert!(fields_eq(list_from_slice(&a, &[string()]), list_from_slice(&b, &[string()])));
    assert!(tags_eq(tags(&a, &[&[string()], &[]]), tags(&b, &[&[string()], &[]])));
    assert!(!tags_eq(tags(&a, &[&[string()], &[]]), tags(&b, &[&[], &[string()]])));
    let rec = UnionLayout::Recursive(tags(&a, &[&[string()]]));
    let non = UnionLayout::NonRecursive(tags(&a, &[&[string()]]));
    assert!(union_eq(&rec, &rec));
    assert!(!union_eq(&rec, &non));
    let f = Layout::Builtin(Builtin::Float(FloatWidth::F32));
    assert!(layout_eq(&f, &Layout::Builtin(Builtin::Float(FloatWidth::F32))));
    assert!(!layout_eq(&f, &Layout::Builtin(Builtin::Float(FloatWidth::F64))));
}

#[test]
fn well_formed_layouts_have_tag_ids_that_fit_sixteen_bits() {
    let arena = Bump::new();
    let most: Vec<&[Layout]> = vec![&[]; 65535];
    let too_many: Vec<&[Layout]> = vec![&[]; 65536];
    assert!(UnionLayout::Recursive(tags(&arena, &most)).check_wf());
    assert!(!UnionLayout::Recursive(tags(&arena, &too_many)).check_wf());
    assert!(!UnionLayout::NonRecursive(tags(&arena, &too_many)).check_wf());
    let wrapped_edge: Vec<&[Layout]> = vec![&[]; 65534];
    assert!(UnionLayout::NullableWrapped { nullable_id: 0, other_tags: tags(&arena, &wrapped_edge) }
        .check_wf());
    assert!(!UnionLayout::NullableWrapped { nullable_id: 0, other_tags: tags(&arena, &most) }
        .check_wf());
    assert!(Layout::Union(UnionLayout::Recursive(tags(&arena, &most))).check_wf());
    assert!(!Layout::Union(UnionLayout::Recursive(tags(&arena, &too_many))).check_wf());
    assert!(record(&arena, &[string(), string()]).check_wf());
    assert!(string().check_wf());
    let closure = Layout::LambdaSet(LambdaSet {
        representation: arena.alloc(Layout::Union(UnionLayout::Recursive(tags(&arena, &too_many)))),
    });
    assert!(!closure.check_wf());
}

#[test]
fn capability_query_rejects_dictionaries_sets_and_bare_recursive_pointers() {
    let arena = Bump::new();
    let dict = Layout::Builtin(Builtin::Dict(arena.alloc(string()), arena.alloc(string())));
    let set = Layout::Builtin(Builtin::SetOf(arena.alloc(string())));
    assert!(!is_rc_implemented_yet(&dict));
    assert!(!is_rc_implemented_yet(&set));
    assert!(!is_rc_implemented_yet(&list_of(&arena, dict)));
    assert!(!is_rc_implemented_yet(&record(&arena, &[string(), set])));
    assert!(!is_rc_implemented_yet(&Layout::RecursivePointer));
    assert!(!is_rc_implemented_yet(&record(&arena, &[Layout::RecursivePointer])));
    assert!(!is_rc_implemented_yet(&list_of(&arena, Layout::RecursivePointer)));
    let stack_with_pointer =
        Layout::Union(UnionLayout::NonRecursive(tags(&arena, &[&[Layout::RecursivePointer]])));
    assert!(!is_rc_implemented_yet(&stack_with_pointer));
    let closure_of_dict = Layout::LambdaSet(LambdaSet { representation: arena.alloc(dict) });
    assert!(!is_rc_implemented_yet(&closure_of_dict));
    let heap_with_set = Layout::Union(UnionLayout::Recursive(tags(&arena, &[&[string()], &[set]])));
    assert!(!is_rc_implemented_yet(&heap_with_set));
}

#[test]
fn capability_query_accepts_what_the_lowering_handles() {
    let arena = Bump::new();
    assert!(is_rc_implemented_yet(&string()));
    assert!(is_rc_implemented_yet(&int_of(IntWidth::I64)));
    assert!(is_rc_implemented_yet(&list_of(&arena, list_of(&arena, string()))));
    assert!(is_rc_implemented_yet(&record(&arena, &[])));
    let cons = Layout::Union(UnionLayout::NullableUnwrapped {
        nullable_id: false,
        other_fields: list_from_slice(&arena, &[string(), Layout::RecursivePointer]),
    });
    assert!(is_rc_implemented_yet(&cons));
    let rose = Layout::Union(UnionLayout::Recursive(tags(
        &arena,
        &[&[list_of(&arena, Layout::RecursivePointer)]],
    )));
    assert!(is_rc_implemented_yet(&rose));
    let inner_stack =
        Layout::Union(UnionLayout::NonRecursive(tags(&arena, &[&[Layout::RecursivePointer], &[]])));
    let wrapped = Layout::Union(UnionLayout::NullableWrapped {
        nullable_id: 0,
        other_tags: tags(&arena, &[&[inner_stack]]),
    });
    assert!(is_rc_implemented_yet(&wrapped));
    let boxed = Layout::Union(UnionLayout::NonNullableUnwrapped(list_from_slice(
        &arena,
        &[record(&arena, &[Layout::RecursivePointer, string()])],
    )));
    assert!(is_rc_implemented_yet(&boxed));
    let closure = Layout::LambdaSet(LambdaSet { representation: arena.alloc(cons) });
    assert!(is_rc_implemented_yet(&closure));
}
