use bumpalo::Bump;
use refcount_codegen::arena::list_from_slice;
use refcount_codegen::arena::List;
use refcount_codegen::help::CodeGenHelp;
use refcount_codegen::help::Context;
use refcount_codegen::help::HelperOp;
use refcount_codegen::ir::BranchInfo;
use refcount_codegen::ir::CallType;
use refcount_codegen::ir::Expr;
use refcount_codegen::ir::Literal;
use refcount_codegen::ir::LowLevel;
use refcount_codegen::ir::Stmt;
use refcount_codegen::layout::Builtin;
use refcount_codegen::layout::IntWidth;
use refcount_codegen::layout::Layout;
use refcount_codegen::layout::UnionLayout;
use refcount_codegen::refcount::modify_refcount;
use refcount_codegen::refcount::rc_ptr_from_data_ptr;
use refcount_codegen::refcount::rc_return_stmt;
use refcount_codegen::refcount::refcount_generic;
use refcount_codegen::refcount::refcount_list;
use refcount_codegen::refcount::refcount_list_elems;
use refcount_codegen::refcount::refcount_str;
use refcount_codegen::refcount::refcount_struct;
use refcount_codegen::refcount::refcount_tag_fields;
use refcount_codegen::refcount::refcount_tag_union;
use refcount_codegen::refcount::refcount_tag_union_help;
use refcount_codegen::refcount::check_can_dispatch;
use refcount_codegen::refcount::try_refcount_generic;
use refcount_codegen::refcount::FieldSource;
use refcount_codegen::symbol::IdentIds;
use refcount_codegen::symbol::JoinPointId;
use refcount_codegen::symbol::Symbol;

const HOME: u32 = 9;

fn outside(n: usize) -> Symbol {
    Symbol { module_id: 2, ident_id: n }
}

fn home(n: usize) -> Symbol {
    Symbol { module_id: HOME, ident_id: n }
}

fn string<'a>() -> Layout<'a> {
    Layout::Builtin(Builtin::Str)
}

fn int64<'a>() -> Layout<'a> {
    Layout::Builtin(Builtin::Int(IntWidth::I64))
}

fn primitive<'a>(stmt: &Stmt<'a>) -> (Symbol, LowLevel, Vec<Symbol>, Layout<'a>, &'a Stmt<'a>) {
    match stmt {
        Stmt::Let(bound, Expr::Call(call), layout, next) => match call.call_type {
            CallType::LowLevel { op, .. } => {
                let mut args = Vec::new();
                let mut cur = call.arguments;
                while let List::Cons(head, tail) = cur {
                    args.push(*head);
                    cur = tail;
                }
                (*bound, op, args, *layout, *next)
            }
            _ => panic!("expected a primitive, got {:?}", stmt),
        },
        _ => panic!("expected a binding of a call, got {:?}", stmt),
    }
}

fn literal<'a>(stmt: &Stmt<'a>) -> (Symbol, i128, Layout<'a>, &'a Stmt<'a>) {
    match stmt {
        Stmt::Let(bound, Expr::Literal(Literal::Int(n)), layout, next) => {
            (*bound, *n, *layout, *next)
        }
        _ => panic!("expected a binding of a literal, got {:?}", stmt),
    }
}

fn nodes(stmt: &Stmt) -> usize {
    match stmt {
        Stmt::Let(_, _, _, next) => 1 + nodes(next),
        Stmt::Switch { branches, default_branch, .. } => {
            let mut total = 1 + nodes(default_branch.1);
            let mut cur: &List<(u64, BranchInfo, Stmt)> = branches;
            while let List::Cons(head, tail) = cur {
                total += nodes(&head.2);
                cur = tail;
            }
            total
        }
        Stmt::Ret(_) | Stmt::Jump(_, _) => 1,
        Stmt::Join { body, remainder, .. } => 1 + nodes(body) + nodes(remainder),
    }
}

fn helper_calls(stmt: &Stmt) -> usize {
    match stmt {
        Stmt::Let(_, expr, _, next) => {
            let here = matches!(
                expr,
                Expr::Call(call) if matches!(call.call_type, CallType::ByName { .. })
            );
            here as usize + helper_calls(next)
        }
        Stmt::Switch { branches, default_branch, .. } => {
            let mut total = helper_calls(default_branch.1);
            let mut cur: &List<(u64, BranchInfo, Stmt)> = branches;
            while let List::Cons(head, tail) = cur {
                total += helper_calls(&head.2);
                cur = tail;
            }
            total
        }
        Stmt::Ret(_) | Stmt::Jump(_, _) => 0,
        Stmt::Join { body, remainder, .. } => helper_calls(body) + helper_calls(remainder),
    }
}

#[test]
fn counter_address_is_computed_between_two_casts() {
    let arena = Bump::new();
    let root = CodeGenHelp::new(&arena, IntWidth::I64, HOME);
    let mut ids = IdentIds::new();
    let tail = arena.alloc(Stmt::Ret(outside(2)));
    let isize_layout = int64();

    let plain = rc_ptr_from_data_ptr(&root, &mut ids, outside(1), outside(2), false, tail);
    let (addr, op, args, layout, next) = primitive(&plain);
    assert_eq!((addr, op, args, layout), (home(0), LowLevel::PtrCast, vec![outside(1)], isize_layout));
    let (size, n, layout, next) = literal(next);
    assert_eq!((size, n, layout), (home(3), 8, isize_layout));
    let (rc_addr, op, args, _, next) = primitive(next);
    assert_eq!((rc_addr, op, args), (home(4), LowLevel::NumSub, vec![home(0), home(3)]));
    let (rc_ptr, op, args, layout, next) = primitive(next);
    assert_eq!(
        (rc_ptr, op, args, layout),
        (outside(2), LowLevel::PtrCast, vec![home(4)], Layout::RecursivePointer)
    );
    assert_eq!(*next, Stmt::Ret(outside(2)));
    assert_eq!(ids.names, vec!["addr", "mask", "masked", "ptr_size", "rc_addr"]);

    let masked = rc_ptr_from_data_ptr(&root, &mut ids, outside(1), outside(2), true, tail);
    let (addr, _, _, _, next) = primitive(&masked);
    assert_eq!(addr, home(5));
    let (mask, n, layout, next) = literal(next);
    assert_eq!((mask, n, layout), (home(6), -8, isize_layout));
    let (and, op, args, _, next) = primitive(next);
    assert_eq!((and, op, args), (home(7), LowLevel::And, vec![home(5), home(6)]));
    let (_, n, _, next) = literal(next);
    assert_eq!(n, 8);
    let (_, op, args, _, _) = primitive(next);
    assert_eq!((op, args), (LowLevel::NumSub, vec![home(7), home(8)]));
    assert_eq!(ids.len(), 10);
}

#[test]
fn counter_address_uses_the_pointer_size_of_the_target() {
    let arena = Bump::new();
    let root = CodeGenHelp::new(&arena, IntWidth::I32, HOME);
    let mut ids = IdentIds::new();
    let tail = arena.alloc(Stmt::Ret(outside(2)));
    let stmt = rc_ptr_from_data_ptr(&root, &mut ids, outside(1), outside(2), true, tail);
    let (_, _, _, layout, next) = primitive(&stmt);
    assert_eq!(layout, Layout::Builtin(Builtin::Int(IntWidth::I32)));
    let (_, mask, _, next) = literal(next);
    assert_eq!(mask, -4);
    let (_, _, _, _, next) = primitive(next);
    let (_, size, _, _) = literal(next);
    assert_eq!(size, 4);
}

#[test]
fn runtime_call_takes_the_amount_or_the_alignment() {
    let arena = Bump::new();
    let root = CodeGenHelp::new(&arena, IntWidth::I64, HOME);
    let mut ids = IdentIds::new();
    let tail = arena.alloc(Stmt::Ret(outside(2)));

    let inc = Context { recursive_union: None, op: HelperOp::Inc };
    let stmt = modify_refcount(&root, &mut ids, &inc, outside(1), 16, tail);
    let (result, op, args, layout, next) = primitive(&stmt);
    assert_eq!(
        (result, op, args, layout),
        (home(0), LowLevel::RefCountInc, vec![outside(1), Symbol::arg_2()], Layout::Struct(&List::Nil))
    );
    assert_eq!(*next, Stmt::Ret(outside(2)));
    assert_eq!(ids.len(), 1);

    for op in [HelperOp::Dec, HelperOp::DecRef(JoinPointId(outside(9)))] {
        let mut ids = IdentIds::new();
        let ctx = Context { recursive_union: None, op };
        let stmt = modify_refcount(&root, &mut ids, &ctx, outside(1), 16, tail);
        let (alignment, n, layout, next) = literal(&stmt);
        assert_eq!((alignment, n), (home(1), 16));
        assert_eq!(layout, Layout::Builtin(Builtin::Int(IntWidth::U32)));
        let (result, op, args, _, next) = primitive(next);
        assert_eq!((result, op, args), (home(0), LowLevel::RefCountDec, vec![outside(1), home(1)]));
        assert_eq!(*next, Stmt::Ret(outside(2)));
        assert_eq!(ids.names, vec!["rc_call_result", "alignment"]);
    }
}

#[test]
fn emitted_code_ends_by_a_return_or_by_a_jump() {
    let arena = Bump::new();
    let root = CodeGenHelp::new(&arena, IntWidth::I64, HOME);
    for op in [HelperOp::Inc, HelperOp::Dec] {
        let mut ids = IdentIds::new();
        let ctx = Context { recursive_union: None, op };
        match rc_return_stmt(&root, &mut ids, &ctx) {
            Stmt::Let(unit, Expr::Struct(fields), layout, next) => {
                assert_eq!(unit, home(0));
                assert_eq!(*fields, List::Nil);
                assert_eq!(layout, Layout::Struct(&List::Nil));
                assert_eq!(*next, Stmt::Ret(home(0)));
            }
            other => panic!("expected the empty record, got {:?}", other),
        }
        assert_eq!(ids.names, vec!["unit"]);
    }
    let mut ids = IdentIds::new();
    let jp = JoinPointId(outside(9));
    let ctx = Context { recursive_union: None, op: HelperOp::DecRef(jp) };
    assert_eq!(rc_return_stmt(&root, &mut ids, &ctx), Stmt::Jump(jp, &List::Nil));
    assert_eq!(ids.len(), 0);
}

fn dispatched<'a>(arena: &'a Bump, layout: Layout<'a>) -> (Stmt<'a>, Vec<&'static str>, usize) {
    let mut root = CodeGenHelp::new(arena, IntWidth::I64, HOME);
    let mut ids = IdentIds::new();
    let mut ctx = Context { recursive_union: None, op: HelperOp::Dec };
    let stmt = refcount_generic(&mut root, &mut ids, &mut ctx, layout, outside(1));
    (stmt, ids.names, root.specializations.len())
}

#[test]
fn shape_refcounters_are_what_the_dispatcher_chooses() {
    let arena = Bump::new();
    let dec = Context { recursive_union: None, op: HelperOp::Dec };
    let elem = arena.alloc(string());
    let list = Layout::Builtin(Builtin::List(elem));
    let record = list_from_slice(&arena, &[string(), int64(), list]);
    let cons = UnionLayout::NullableUnwrapped {
        nullable_id: true,
        other_fields: list_from_slice(&arena, &[list, Layout::RecursivePointer]),
    };

    let generic = |layout| dispatched(&arena, layout);

    let mut root = CodeGenHelp::new(&arena, IntWidth::I64, HOME);
    let mut ids = IdentIds::new();
    let stmt = refcount_str(&root, &mut ids, &dec, outside(1));
    assert_eq!((stmt, ids.names, 0), generic(string()));

    let mut ids = IdentIds::new();
    let stmt = refcount_list(&mut root, &mut ids, &dec, &list, elem, outside(1));
    assert_eq!((stmt, ids.names, root.specializations.len()), generic(list));

    let mut root = CodeGenHelp::new(&arena, IntWidth::I64, HOME);
    let mut ids = IdentIds::new();
    let stmt = refcount_struct(&mut root, &mut ids, &dec, record, outside(1));
    assert_eq!((stmt, ids.names, root.specializations.len()), generic(Layout::Struct(record)));
    assert_eq!(helper_calls(&stmt), 2);

    let mut root = CodeGenHelp::new(&arena, IntWidth::I64, HOME);
    let mut ids = IdentIds::new();
    let mut ctx = dec;
    let stmt = refcount_tag_union(&mut root, &mut ids, &mut ctx, cons, outside(1));
    assert_eq!((stmt, ids.names, root.specializations.len()), generic(Layout::Union(cons)));
    assert_eq!(ctx.recursive_union, None);

    let mut root = CodeGenHelp::new(&arena, IntWidth::I64, HOME);
    let mut ids = IdentIds::new();
    let inside = Context { recursive_union: Some(cons), op: HelperOp::Dec };
    let tags = list_from_slice(
        &arena,
        &[list_from_slice(&arena, &[list, Layout::RecursivePointer])],
    );
    let stmt =
        refcount_tag_union_help(&mut root, &mut ids, &inside, cons, tags, Some(1), outside(1));
    assert_eq!((stmt, ids.names, root.specializations.len()), generic(Layout::Union(cons)));
}

#[test]
fn field_walk_reads_the_constructor_it_is_given() {
    let arena = Bump::new();
    let mut root = CodeGenHelp::new(&arena, IntWidth::I64, HOME);
    let mut ids = IdentIds::new();
    let inc = Context { recursive_union: None, op: HelperOp::Inc };
    let fields = list_from_slice(&arena, &[int64(), string(), string()]);
    let union_layout =
        UnionLayout::NonRecursive(list_from_slice(&arena, &[list_from_slice(&arena, &[]), fields]));
    let tail = Stmt::Ret(outside(7));

    let stmt = refcount_tag_fields(
        &mut root,
        &mut ids,
        &inc,
        union_layout,
        fields,
        outside(1),
        1,
        tail,
    );
    match stmt {
        Stmt::Let(first, Expr::UnionAtIndex { structure, tag_id, index, union_layout: u }, l, next) => {
            assert_eq!(first, home(3));
            assert_eq!((structure, tag_id, index, u, l), (outside(1), 1, 1, union_layout, string()));
            match next {
                Stmt::Let(_, Expr::Call(call), _, next) => {
                    assert_eq!(
                        *call.arguments,
                        List::Cons(home(3), &List::Cons(Symbol::arg_2(), &List::Nil))
                    );
                    match next {
                        Stmt::Let(second, Expr::UnionAtIndex { index, .. }, _, _) => {
                            assert_eq!((*second, *index), (home(0), 2));
                        }
                        other => panic!("expected the second field, got {:?}", other),
                    }
                }
                other => panic!("expected the helper call, got {:?}", other),
            }
        }
        other => panic!("expected the first counted field, got {:?}", other),
    }
    assert_eq!(helper_calls(&stmt), 2);
    assert_eq!(root.specializations.len(), 1);
    assert_eq!(ids.names, vec!["field_val", "mod_field", "#help_inc", "field_val", "mod_field"]);
    let source = FieldSource::Record(fields);
    assert!(matches!(
        source.field_expr(outside(1), 2),
        Expr::StructAtIndex { index: 2, structure, .. } if structure == outside(1)
    ));
}

#[test]
fn element_loop_leaves_by_the_statement_it_is_given() {
    let arena = Bump::new();
    let mut root = CodeGenHelp::new(&arena, IntWidth::I64, HOME);
    let mut ids = IdentIds::new();
    let dec = Context { recursive_union: None, op: HelperOp::Dec };
    let elem = string();
    let box_union = UnionLayout::NonNullableUnwrapped(list_from_slice(&arena, &[elem]));
    let exit = Stmt::Ret(outside(7));
    let stmt = refcount_list_elems(
        &mut root,
        &mut ids,
        &dec,
        &elem,
        Layout::Struct(&List::Nil),
        box_union,
        outside(1),
        outside(2),
        exit,
    );
    let (start, op, args, _, next) = primitive(&stmt);
    assert_eq!((start, op, args), (home(0), LowLevel::PtrCast, vec![outside(2)]));
    let (size, n, _, next) = literal(next);
    assert_eq!((size, n), (home(1), 16));
    let (_, op, args, _, next) = primitive(next);
    assert_eq!((op, args), (LowLevel::NumMul, vec![outside(1), home(1)]));
    let (end, op, args, _, next) = primitive(next);
    assert_eq!((end, op, args), (home(3), LowLevel::NumAdd, vec![home(0), home(2)]));
    match next {
        Stmt::Join { id, parameters, body, remainder } => {
            assert_eq!(*id, JoinPointId(home(4)));
            match parameters {
                List::Cons(param, List::Nil) => {
                    assert_eq!((param.symbol, param.borrow, param.layout), (home(5), false, int64()));
                }
                other => panic!("expected one parameter, got {:?}", other),
            }
            assert_eq!(**remainder, Stmt::Jump(*id, &List::Cons(home(0), &List::Nil)));
            let (is_end, op, args, _, next) = primitive(body);
            assert_eq!((op, args), (LowLevel::NumGte, vec![home(5), home(3)]));
            match next {
                Stmt::Switch { cond_symbol, branches, .. } => {
                    assert_eq!(*cond_symbol, is_end);
                    match branches {
                        List::Cons((1, BranchInfo::Unknown, taken), List::Nil) => {
                            assert_eq!(*taken, exit)
                        }
                        other => panic!("expected the exit branch, got {:?}", other),
                    }
                }
                other => panic!("expected the test of the end, got {:?}", other),
            }
        }
        other => panic!("expected the loop, got {:?}", other),
    }
    assert_eq!(helper_calls(&stmt), 1);
    assert_eq!(root.specializations.len(), 1);
}

#[test]
fn statement_size_grows_with_the_layout_only() {
    let arena = Bump::new();
    for count in [0usize, 1, 10, 200] {
        for op in [HelperOp::Inc, HelperOp::Dec] {
            let fields: Vec<Layout> = (0..count)
                .map(|i| if i % 2 == 0 { string() } else { int64() })
                .collect();
            let record = Layout::Struct(list_from_slice(&arena, &fields));
            let tags: Vec<&List<Layout>> =
                (0..count).map(|_| list_from_slice(&arena, &fields)).collect();
            let union_layout = Layout::Union(UnionLayout::Recursive(list_from_slice(&arena, &tags)));
            for (layout, tree_size) in [(record, 1 + count), (union_layout, 1 + count * (count + 1))] {
                if !layout.check_wf() {
                    continue;
                }
                let mut root = CodeGenHelp::new(&arena, IntWidth::I64, HOME);
                let mut ids = IdentIds::new();
                let mut ctx = Context { recursive_union: None, op };
                let stmt = refcount_generic(&mut root, &mut ids, &mut ctx, layout, outside(1));
                assert!(nodes(&stmt) <= 12 * tree_size + 40);
                let counted = (count + 1) / 2;
                let visited = if layout == record { counted } else { count * counted };
                assert_eq!(helper_calls(&stmt), visited);
                assert!(root.specializations.len() <= visited.min(1));
            }
        }
    }
}

#[test]
fn guarded_dispatch_refuses_what_has_no_statement() {
    let arena = Bump::new();
    let dict = Layout::Builtin(Builtin::Dict(arena.alloc(string()), arena.alloc(string())));
    let set = Layout::Builtin(Builtin::SetOf(arena.alloc(string())));
    let pointer_in_record = Layout::Struct(list_from_slice(&arena, &[Layout::RecursivePointer]));
    let pointer_in_list = Layout::Builtin(Builtin::List(arena.alloc(Layout::RecursivePointer)));
    let pointer_on_stack = Layout::Union(UnionLayout::NonRecursive(list_from_slice(
        &arena,
        &[list_from_slice(&arena, &[Layout::RecursivePointer])],
    )));
    let too_many: Vec<&List<Layout>> = vec![list_from_slice(&arena, &[]); 65536];
    let huge = Layout::Union(UnionLayout::Recursive(list_from_slice(&arena, &too_many)));
    let refused = [
        int64(),
        Layout::Builtin(Builtin::Bool),
        dict,
        set,
        Layout::RecursivePointer,
        pointer_in_record,
        pointer_in_list,
        pointer_on_stack,
        huge,
    ];
    for layout in refused {
        let mut root = CodeGenHelp::new(&arena, IntWidth::I64, HOME);
        let mut ids = IdentIds::new();
        let mut ctx = Context { recursive_union: None, op: HelperOp::Dec };
        assert!(!check_can_dispatch(&root, &ctx, &layout), "{:?}", layout);
        assert_eq!(try_refcount_generic(&mut root, &mut ids, &mut ctx, layout, outside(1)), None);
        assert_eq!(ids.len(), 0);
        assert!(root.specializations.is_empty());
    }
}

#[test]
fn guarded_dispatch_emits_what_the_dispatcher_emits() {
    let arena = Bump::new();
    let cons = UnionLayout::NullableUnwrapped {
        nullable_id: false,
        other_fields: list_from_slice(&arena, &[string(), Layout::RecursivePointer]),
    };
    let pointer_in_record = Layout::Struct(list_from_slice(&arena, &[Layout::RecursivePointer]));
    let pointer_in_list = Layout::Builtin(Builtin::List(arena.alloc(Layout::RecursivePointer)));
    let inside = Context { recursive_union: Some(cons), op: HelperOp::Inc };
    let outside_any = Context { recursive_union: None, op: HelperOp::Inc };
    let decref = Context { recursive_union: None, op: HelperOp::DecRef(JoinPointId(outside(9))) };

    for (ctx, layout) in [
        (outside_any, string()),
        (outside_any, Layout::Union(cons)),
        (inside, pointer_in_record),
        (inside, pointer_in_list),
        (decref, pointer_in_record),
        (decref, pointer_in_list),
    ] {
        let mut root = CodeGenHelp::new(&arena, IntWidth::I64, HOME);
        let mut ids = IdentIds::new();
        let mut guarded_ctx = ctx;
        let guarded =
            try_refcount_generic(&mut root, &mut ids, &mut guarded_ctx, layout, outside(1));

        let mut other_root = CodeGenHelp::new(&arena, IntWidth::I64, HOME);
        let mut other_ids = IdentIds::new();
        let mut plain_ctx = ctx;
        let plain =
            refcount_generic(&mut other_root, &mut other_ids, &mut plain_ctx, layout, outside(1));
        assert_eq!(guarded, Some(plain));
        assert_eq!(ids.names, other_ids.names);
        assert_eq!(root.specializations.len(), other_root.specializations.len());
    }
}
