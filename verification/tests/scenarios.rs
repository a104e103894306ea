use bumpalo::Bump;
use refcount_codegen::arena::list_from_slice;
use refcount_codegen::arena::List;
use refcount_codegen::help::CodeGenHelp;
use refcount_codegen::help::Context;
use refcount_codegen::help::HelperOp;
use refcount_codegen::ir::BranchInfo;
use refcount_codegen::ir::CallType;
use refcount_codegen::ir::Expr;
use refcount_codegen::ir::Literal;
use refcount_codegen::ir::ModifyRc;
use refcount_codegen::ir::Stmt;
use refcount_codegen::layout::Builtin;
use refcount_codegen::layout::FloatWidth;
use refcount_codegen::layout::IntWidth;
use refcount_codegen::layout::Layout;
use refcount_codegen::layout::UnionLayout;
use refcount_codegen::refcount::refcount_generic;
use refcount_codegen::refcount::refcount_stmt;
use refcount_codegen::symbol::IdentIds;
use refcount_codegen::symbol::JoinPointId;
use refcount_codegen::symbol::Symbol;

const HOME: u32 = 7;

fn value() -> Symbol {
    Symbol { module_id: 3, ident_id: 40 }
}

fn sym(ids: &IdentIds, s: Symbol) -> String {
    if s.module_id == HOME {
        format!("{}.{}", ids.names[s.ident_id], s.ident_id)
    } else if s.module_id == 0 {
        format!("arg{}", s.ident_id)
    } else {
        format!("v{}", s.ident_id)
    }
}

fn syms(ids: &IdentIds, list: &List<Symbol>) -> String {
    let mut parts = Vec::new();
    let mut cur = list;
    while let List::Cons(head, tail) = cur {
        parts.push(sym(ids, *head));
        cur = tail;
    }
    parts.join(", ")
}

fn fields(list: &List<Layout>) -> String {
    let mut parts = Vec::new();
    let mut cur = list;
    while let List::Cons(head, tail) = cur {
        parts.push(layout(head));
        cur = tail;
    }
    parts.join(", ")
}

fn tags(list: &List<&List<Layout>>) -> String {
    let mut parts = Vec::new();
    let mut cur = list;
    while let List::Cons(head, tail) = cur {
        parts.push(format!("[{}]", fields(head)));
        cur = tail;
    }
    parts.join(" ")
}

fn union_layout(u: &UnionLayout) -> String {
    match u {
        UnionLayout::NonRecursive(t) => format!("NonRec({})", tags(t)),
        UnionLayout::Recursive(t) => format!("Rec({})", tags(t)),
        UnionLayout::NonNullableUnwrapped(f) => format!("Box({})", fields(f)),
        UnionLayout::NullableWrapped { nullable_id, other_tags } => {
            format!("Nullable{}({})", nullable_id, tags(other_tags))
        }
        UnionLayout::NullableUnwrapped { nullable_id, other_fields } => {
            format!("Nullable{}[{}]", *nullable_id as u8, fields(other_fields))
        }
    }
}

fn layout(l: &Layout) -> String {
    match l {
        Layout::Builtin(Builtin::Int(w)) => format!("{:?}", w),
        Layout::Builtin(Builtin::Float(w)) => format!("{:?}", w),
        Layout::Builtin(Builtin::Bool) => "Bool".to_string(),
        Layout::Builtin(Builtin::Decimal) => "Dec".to_string(),
        Layout::Builtin(Builtin::Str) => "Str".to_string(),
        Layout::Builtin(Builtin::Dict(k, v)) => format!("Dict({}, {})", layout(k), layout(v)),
        Layout::Builtin(Builtin::SetOf(k)) => format!("Set({})", layout(k)),
        Layout::Builtin(Builtin::List(e)) => format!("List({})", layout(e)),
        Layout::Struct(f) => format!("{{{}}}", fields(f)),
        Layout::Union(u) => union_layout(u),
        Layout::LambdaSet(s) => format!("Closure({})", layout(s.representation)),
        Layout::RecursivePointer => "Ptr".to_string(),
    }
}

fn expr(ids: &IdentIds, e: &Expr) -> String {
    match e {
        Expr::Literal(Literal::Int(n)) => format!("{}", n),
        Expr::Literal(other) => format!("{:?}", other),
        Expr::Call(call) => match call.call_type {
            CallType::ByName { name, arg_layouts, .. } => format!(
                "call {}({}) : ({})",
                sym(ids, name),
                syms(ids, call.arguments),
                fields(arg_layouts)
            ),
            CallType::LowLevel { op, .. } => format!("{:?}({})", op, syms(ids, call.arguments)),
        },
        Expr::Struct(items) => format!("{{{}}}", syms(ids, items)),
        Expr::StructAtIndex { index, structure, .. } => {
            format!("{}.{}", sym(ids, *structure), index)
        }
        Expr::GetTagId { structure, .. } => format!("tag({})", sym(ids, *structure)),
        Expr::UnionAtIndex { structure, tag_id, index, .. } => {
            format!("{}#{}.{}", sym(ids, *structure), tag_id, index)
        }
    }
}

fn render(ids: &IdentIds, stmt: &Stmt, indent: usize, out: &mut Vec<String>) {
    let pad = " ".repeat(indent);
    match stmt {
        Stmt::Let(s, e, l, next) => {
            out.push(format!("{}{}: {} = {}", pad, sym(ids, *s), layout(l), expr(ids, e)));
            render(ids, next, indent, out);
        }
        Stmt::Switch { cond_symbol, branches, default_branch, .. } => {
            out.push(format!("{}switch {}", pad, sym(ids, *cond_symbol)));
            let mut cur: &List<(u64, BranchInfo, Stmt)> = branches;
            while let List::Cons(head, tail) = cur {
                out.push(format!("{}  {} ->", pad, head.0));
                render(ids, &head.2, indent + 4, out);
                cur = tail;
            }
            out.push(format!("{}  default ->", pad));
            render(ids, default_branch.1, indent + 4, out);
        }
        Stmt::Ret(s) => out.push(format!("{}ret {}", pad, sym(ids, *s))),
        Stmt::Join { id, parameters, body, remainder } => {
            let mut params = Vec::new();
            let mut cur = *parameters;
            while let List::Cons(head, tail) = cur {
                params.push(sym(ids, head.symbol));
                cur = tail;
            }
            out.push(format!("{}join {}({})", pad, sym(ids, id.0), params.join(", ")));
            render(ids, body, indent + 4, out);
            out.push(format!("{}in", pad));
            render(ids, remainder, indent + 4, out);
        }
        Stmt::Jump(id, args) => {
            out.push(format!("{}jump {}({})", pad, sym(ids, id.0), syms(ids, args)))
        }
    }
}

fn show(ids: &IdentIds, stmt: &Stmt) -> String {
    let mut out = Vec::new();
    render(ids, stmt, 0, &mut out);
    out.join("\n")
}

fn expect(actual: String, expected: &[&str]) {
    let expected = expected.join("\n");
    if actual != expected {
        println!("{}", actual);
    }
    assert_eq!(actual, expected);
}

fn int64<'a>() -> Layout<'a> {
    Layout::Builtin(Builtin::Int(IntWidth::I64))
}

fn string<'a>() -> Layout<'a> {
    Layout::Builtin(Builtin::Str)
}

fn helper_body<'a>(arena: &'a Bump, ids: &mut IdentIds, op: HelperOp, l: Layout<'a>) -> String {
    let mut root = CodeGenHelp::new(arena, IntWidth::I64, HOME);
    let mut ctx = Context { recursive_union: None, op };
    let stmt = refcount_generic(&mut root, ids, &mut ctx, l, Symbol::arg_1());
    show(ids, &stmt)
}

#[test]
fn string_inc_binds_amount_and_calls_helper() {
    let arena = Bump::new();
    let mut root = CodeGenHelp::new(&arena, IntWidth::I64, HOME);
    let mut ident_ids = IdentIds::new();
    let mut ctx = Context { recursive_union: None, op: HelperOp::Inc };
    let tail = arena.alloc(Stmt::Ret(value()));

    let stmt = refcount_stmt(
        &mut root,
        &mut ident_ids,
        &mut ctx,
        string(),
        &ModifyRc::Inc(value(), 3),
        tail,
    );

    expect(
        show(&ident_ids, stmt),
        &[
            "amount.0: I64 = 3",
            "call_result_empty.1: {} = call #help_inc.2(v40, amount.0) : (Str, I64)",
            "ret v40",
        ],
    );
    assert_eq!(root.specializations.len(), 1);
    assert_eq!(root.specializations[0].op, HelperOp::Inc);
    assert_eq!(root.specializations[0].layout, string());
    assert_eq!(root.specializations[0].symbol, Symbol { module_id: HOME, ident_id: 2 });
    assert_eq!(ctx.op, HelperOp::Inc);
}

#[test]
fn string_dec_helper_skips_small_strings() {
    let arena = Bump::new();
    let mut ids = IdentIds::new();
    expect(
        helper_body(&arena, &mut ids, HelperOp::Dec, string()),
        &[
            "len.0: I64 = arg1.1",
            "zero.1: I64 = 0",
            "is_big_str.2: Bool = NumGte(len.0, zero.1)",
            "switch is_big_str.2",
            "  1 ->",
            "    elements.3: I64 = arg1.0",
            "    addr.8: I64 = PtrCast(elements.3)",
            "    ptr_size.11: I64 = 8",
            "    rc_addr.12: I64 = NumSub(addr.8, ptr_size.11)",
            "    rc_ptr.4: Ptr = PtrCast(rc_addr.12)",
            "    alignment.7: U32 = 8",
            "    rc_call_result.6: {} = RefCountDec(rc_ptr.4, alignment.7)",
            "    unit.5: {} = {}",
            "    ret unit.5",
            "  default ->",
            "    unit.13: {} = {}",
            "    ret unit.13",
        ],
    );
}

#[test]
fn string_inc_helper_passes_the_amount_parameter() {
    let arena = Bump::new();
    let mut ids = IdentIds::new();
    expect(
        helper_body(&arena, &mut ids, HelperOp::Inc, string()),
        &[
            "len.0: I64 = arg1.1",
            "zero.1: I64 = 0",
            "is_big_str.2: Bool = NumGte(len.0, zero.1)",
            "switch is_big_str.2",
            "  1 ->",
            "    elements.3: I64 = arg1.0",
            "    addr.7: I64 = PtrCast(elements.3)",
            "    ptr_size.10: I64 = 8",
            "    rc_addr.11: I64 = NumSub(addr.7, ptr_size.10)",
            "    rc_ptr.4: Ptr = PtrCast(rc_addr.11)",
            "    rc_call_result.6: {} = RefCountInc(rc_ptr.4, arg2)",
            "    unit.5: {} = {}",
            "    ret unit.5",
            "  default ->",
            "    unit.12: {} = {}",
            "    ret unit.12",
        ],
    );
}

#[test]
fn list_of_int_dec_has_no_element_loop() {
    let arena = Bump::new();
    let mut ids = IdentIds::new();
    let elem = arena.alloc(int64());
    let l = Layout::Builtin(Builtin::List(elem));
    expect(
        helper_body(&arena, &mut ids, HelperOp::Dec, l),
        &[
            "len.0: I64 = ListLen(arg1)",
            "zero.1: I64 = 0",
            "is_empty.2: Bool = Eq(len.0, zero.1)",
            "switch is_empty.2",
            "  1 ->",
            "    unit.13: {} = {}",
            "    ret unit.13",
            "  default ->",
            "    elements.3: Box(I64) = arg1.0",
            "    addr.8: I64 = PtrCast(elements.3)",
            "    ptr_size.11: I64 = 8",
            "    rc_addr.12: I64 = NumSub(addr.8, ptr_size.11)",
            "    rc_ptr.4: Ptr = PtrCast(rc_addr.12)",
            "    alignment.7: U32 = 8",
            "    rc_call_result.6: {} = RefCountDec(rc_ptr.4, alignment.7)",
            "    unit.5: {} = {}",
            "    ret unit.5",
        ],
    );
}

#[test]
fn list_of_string_dec_walks_elements_before_the_list() {
    let arena = Bump::new();
    let mut ids = IdentIds::new();
    let elem = arena.alloc(string());
    let l = Layout::Builtin(Builtin::List(elem));
    expect(
        helper_body(&arena, &mut ids, HelperOp::Dec, l),
        &[
            "len.0: I64 = ListLen(arg1)",
            "zero.1: I64 = 0",
            "is_empty.2: Bool = Eq(len.0, zero.1)",
            "switch is_empty.2",
            "  1 ->",
            "    unit.25: {} = {}",
            "    ret unit.25",
            "  default ->",
            "    elements.3: Box(Str) = arg1.0",
            "    start.13: I64 = PtrCast(elements.3)",
            "    size.14: I64 = 16",
            "    list_size.15: I64 = NumMul(len.0, size.14)",
            "    end.16: I64 = NumAdd(start.13, list_size.15)",
            "    join elems_loop.17(addr.18)",
            "        is_end.24: Bool = NumGte(addr.18, end.16)",
            "        switch is_end.24",
            "          1 ->",
            "            addr.8: I64 = PtrCast(elements.3)",
            "            ptr_size.11: I64 = 8",
            "            rc_addr.12: I64 = NumSub(addr.8, ptr_size.11)",
            "            rc_ptr.4: Ptr = PtrCast(rc_addr.12)",
            "            alignment.7: U32 = 8",
            "            rc_call_result.6: {} = RefCountDec(rc_ptr.4, alignment.7)",
            "            unit.5: {} = {}",
            "            ret unit.5",
            "          default ->",
            "            box.19: Box(Str) = PtrCast(addr.18)",
            "            elem.20: Str = box.19#0.0",
            "            mod_elem_unit.21: {} = call #help_dec.22(elem.20) : (Str)",
            "            next_addr.23: I64 = NumAdd(addr.18, size.14)",
            "            jump elems_loop.17(next_addr.23)",
            "    in",
            "        jump elems_loop.17(start.13)",
        ],
    );
}

#[test]
fn nullable_cons_dec_guards_null_walks_fields_then_releases() {
    let arena = Bump::new();
    let mut ids = IdentIds::new();
    let cons = list_from_slice(&arena, &[string(), Layout::RecursivePointer]);
    let l = Layout::Union(UnionLayout::NullableUnwrapped {
        nullable_id: false,
        other_fields: cons,
    });
    expect(
        helper_body(&arena, &mut ids, HelperOp::Dec, l),
        &[
            "tag_id.0: Bool = tag(arg1)",
            "switch tag_id.0",
            "  0 ->",
            "    unit.16: {} = {}",
            "    ret unit.16",
            "  default ->",
            "    switch tag_id.0",
            "      default ->",
            "        field_val.13: Str = arg1#1.0",
            "        mod_field.14: {} = call #help_dec.15(field_val.13) : (Str)",
            "        field_val.10: Ptr = arg1#1.1",
            "        mod_field.11: {} = call #help_dec.12(field_val.10) : (Nullable0[Str, Ptr])",
            "        addr.5: I64 = PtrCast(arg1)",
            "        ptr_size.8: I64 = 8",
            "        rc_addr.9: I64 = NumSub(addr.5, ptr_size.8)",
            "        rc_ptr.2: Ptr = PtrCast(rc_addr.9)",
            "        alignment.4: U32 = 8",
            "        rc_call_result.3: {} = RefCountDec(rc_ptr.2, alignment.4)",
            "        unit.1: {} = {}",
            "        ret unit.1",
        ],
    );
}

#[test]
fn struct_inc_visits_only_the_counted_field() {
    let arena = Bump::new();
    let mut ids = IdentIds::new();
    let elem = arena.alloc(int64());
    let record = list_from_slice(&arena, &[int64(), Layout::Builtin(Builtin::List(elem))]);
    let mut root = CodeGenHelp::new(&arena, IntWidth::I64, HOME);
    let mut ctx = Context { recursive_union: None, op: HelperOp::Inc };
    let tail = arena.alloc(Stmt::Ret(value()));
    let stmt = refcount_stmt(
        &mut root,
        &mut ids,
        &mut ctx,
        Layout::Struct(record),
        &ModifyRc::Inc(value(), 5),
        tail,
    );
    expect(
        show(&ids, stmt),
        &[
            "amount.0: I64 = 5",
            "call_result_empty.1: {} = call #help_inc.2(v40, amount.0) : ({I64, List(I64)}, I64)",
            "ret v40",
        ],
    );
    let body = helper_body(&arena, &mut ids, HelperOp::Inc, Layout::Struct(record));
    expect(
        body,
        &[
            "field_val.4: List(I64) = arg1.1",
            "mod_field.5: {} = call #help_inc.6(field_val.4, arg2) : (List(I64), I64)",
            "unit.3: {} = {}",
            "ret unit.3",
        ],
    );
}

fn tree<'a>(arena: &'a Bump) -> Layout<'a> {
    let leaf = list_from_slice(arena, &[string()]);
    let node = list_from_slice(arena, &[Layout::RecursivePointer, int64(), Layout::RecursivePointer]);
    Layout::Union(UnionLayout::Recursive(list_from_slice(arena, &[leaf, node])))
}

#[test]
fn recursive_union_inc_counts_the_block_first_and_masks_the_tag() {
    let arena = Bump::new();
    let mut ids = IdentIds::new();
    expect(
        helper_body(&arena, &mut ids, HelperOp::Inc, tree(&arena)),
        &[
            "tag_id.0: U8 = tag(arg1)",
            "addr.12: I64 = PtrCast(arg1)",
            "mask.13: I64 = -8",
            "masked.14: I64 = And(addr.12, mask.13)",
            "ptr_size.15: I64 = 8",
            "rc_addr.16: I64 = NumSub(masked.14, ptr_size.15)",
            "rc_ptr.2: Ptr = PtrCast(rc_addr.16)",
            "rc_call_result.11: {} = RefCountInc(rc_ptr.2, arg2)",
            "switch tag_id.0",
            "  0 ->",
            "    field_val.3: Str = arg1#0.0",
            "    mod_field.4: {} = call #help_inc.5(field_val.3, arg2) : (Str, I64)",
            "    unit.1: {} = {}",
            "    ret unit.1",
            "  default ->",
            "    field_val.9: Ptr = arg1#1.0",
            "    mod_field.10: {} = call #help_inc.8(field_val.9, arg2) : (Rec([Str] [Ptr, I64, Ptr]), I64)",
            "    field_val.6: Ptr = arg1#1.2",
            "    mod_field.7: {} = call #help_inc.8(field_val.6, arg2) : (Rec([Str] [Ptr, I64, Ptr]), I64)",
            "    unit.1: {} = {}",
            "    ret unit.1",
        ],
    );
}

#[test]
fn recursive_union_dec_walks_each_constructor_before_the_block() {
    let arena = Bump::new();
    let mut ids = IdentIds::new();
    expect(
        helper_body(&arena, &mut ids, HelperOp::Dec, tree(&arena)),
        &[
            "tag_id.0: U8 = tag(arg1)",
            "switch tag_id.0",
            "  0 ->",
            "    field_val.10: Str = arg1#0.0",
            "    mod_field.11: {} = call #help_dec.12(field_val.10) : (Str)",
            "    addr.5: I64 = PtrCast(arg1)",
            "    mask.6: I64 = -8",
            "    masked.7: I64 = And(addr.5, mask.6)",
            "    ptr_size.8: I64 = 8",
            "    rc_addr.9: I64 = NumSub(masked.7, ptr_size.8)",
            "    rc_ptr.2: Ptr = PtrCast(rc_addr.9)",
            "    alignment.4: U32 = 8",
            "    rc_call_result.3: {} = RefCountDec(rc_ptr.2, alignment.4)",
            "    unit.1: {} = {}",
            "    ret unit.1",
            "  default ->",
            "    field_val.16: Ptr = arg1#1.0",
            "    mod_field.17: {} = call #help_dec.15(field_val.16) : (Rec([Str] [Ptr, I64, Ptr]))",
            "    field_val.13: Ptr = arg1#1.2",
            "    mod_field.14: {} = call #help_dec.15(field_val.13) : (Rec([Str] [Ptr, I64, Ptr]))",
            "    addr.5: I64 = PtrCast(arg1)",
            "    mask.6: I64 = -8",
            "    masked.7: I64 = And(addr.5, mask.6)",
            "    ptr_size.8: I64 = 8",
            "    rc_addr.9: I64 = NumSub(masked.7, ptr_size.8)",
            "    rc_ptr.2: Ptr = PtrCast(rc_addr.9)",
            "    alignment.4: U32 = 8",
            "    rc_call_result.3: {} = RefCountDec(rc_ptr.2, alignment.4)",
            "    unit.1: {} = {}",
            "    ret unit.1",
        ],
    );
}

#[test]
fn decref_of_a_list_is_inlined_without_a_loop() {
    let arena = Bump::new();
    let mut root = CodeGenHelp::new(&arena, IntWidth::I64, HOME);
    let mut ids = IdentIds::new();
    let jp = JoinPointId(root.create_symbol(&mut ids, "jp_decref"));
    let mut ctx = Context { recursive_union: None, op: HelperOp::DecRef(jp) };
    let elem = arena.alloc(string());
    let tail = arena.alloc(Stmt::Ret(value()));
    let stmt = refcount_stmt(
        &mut root,
        &mut ids,
        &mut ctx,
        Layout::Builtin(Builtin::List(elem)),
        &ModifyRc::DecRef(value()),
        tail,
    );
    expect(
        show(&ids, stmt),
        &[
            "join jp_decref.0()",
            "    ret v40",
            "in",
            "    len.1: I64 = ListLen(v40)",
            "    zero.2: I64 = 0",
            "    is_empty.3: Bool = Eq(len.1, zero.2)",
            "    switch is_empty.3",
            "      1 ->",
            "        jump jp_decref.0()",
            "      default ->",
            "        elements.4: Box(Str) = v40.0",
            "        addr.8: I64 = PtrCast(elements.4)",
            "        ptr_size.11: I64 = 8",
            "        rc_addr.12: I64 = NumSub(addr.8, ptr_size.11)",
            "        rc_ptr.5: Ptr = PtrCast(rc_addr.12)",
            "        alignment.7: U32 = 8",
            "        rc_call_result.6: {} = RefCountDec(rc_ptr.5, alignment.7)",
            "        jump jp_decref.0()",
        ],
    );
    assert!(root.specializations.is_empty());
    assert_eq!(ctx.op, HelperOp::DecRef(jp));
}

#[test]
fn decref_of_a_string_calls_the_dec_helper() {
    let arena = Bump::new();
    let mut root = CodeGenHelp::new(&arena, IntWidth::I64, HOME);
    let mut ids = IdentIds::new();
    let jp = JoinPointId(root.create_symbol(&mut ids, "jp_decref"));
    let mut ctx = Context { recursive_union: None, op: HelperOp::DecRef(jp) };
    let tail = arena.alloc(Stmt::Ret(value()));
    let stmt = refcount_stmt(
        &mut root,
        &mut ids,
        &mut ctx,
        string(),
        &ModifyRc::DecRef(value()),
        tail,
    );
    expect(
        show(&ids, stmt),
        &["call_result_empty.1: {} = call #help_dec.2(v40) : (Str)", "ret v40"],
    );
    assert_eq!(ctx.op, HelperOp::Dec);
    assert_eq!(root.specializations[0].op, HelperOp::Dec);
}

#[test]
fn decref_of_a_record_emits_nothing() {
    let arena = Bump::new();
    let mut root = CodeGenHelp::new(&arena, IntWidth::I64, HOME);
    let mut ids = IdentIds::new();
    let jp = JoinPointId(root.create_symbol(&mut ids, "jp_decref"));
    let mut ctx = Context { recursive_union: None, op: HelperOp::DecRef(jp) };
    let record = list_from_slice(&arena, &[string(), string()]);
    let tail: &Stmt = arena.alloc(Stmt::Ret(value()));
    let stmt = refcount_stmt(
        &mut root,
        &mut ids,
        &mut ctx,
        Layout::Struct(record),
        &ModifyRc::DecRef(value()),
        tail,
    );
    assert_eq!(stmt, tail);
    assert_eq!(ids.names, vec!["jp_decref"]);
    assert!(root.specializations.is_empty());
}

#[test]
fn dec_calls_the_dec_helper_whatever_the_context_held() {
    let arena = Bump::new();
    let mut root = CodeGenHelp::new(&arena, IntWidth::I64, HOME);
    let mut ids = IdentIds::new();
    let mut ctx = Context { recursive_union: None, op: HelperOp::Inc };
    let tail = arena.alloc(Stmt::Ret(value()));
    let stmt = refcount_stmt(&mut root, &mut ids, &mut ctx, string(), &ModifyRc::Dec(value()), tail);
    expect(
        show(&ids, stmt),
        &["call_result_empty.0: {} = call #help_dec.1(v40) : (Str)", "ret v40"],
    );
    assert_eq!(ctx.op, HelperOp::Dec);
}

#[test]
fn closure_set_is_treated_as_its_representation() {
    let arena = Bump::new();
    let mut ids = IdentIds::new();
    let mut other = IdentIds::new();
    let repr = arena.alloc(string());
    let set = Layout::LambdaSet(refcount_codegen::layout::LambdaSet { representation: repr });
    assert_eq!(
        helper_body(&arena, &mut ids, HelperOp::Dec, set),
        helper_body(&arena, &mut other, HelperOp::Dec, string())
    );
}

#[test]
fn stack_union_walks_fields_and_has_no_counter() {
    let arena = Bump::new();
    let mut ids = IdentIds::new();
    let a = list_from_slice(&arena, &[int64()]);
    let b = list_from_slice(&arena, &[string(), Layout::Builtin(Builtin::Float(FloatWidth::F64))]);
    let l = Layout::Union(UnionLayout::NonRecursive(list_from_slice(&arena, &[a, b])));
    expect(
        helper_body(&arena, &mut ids, HelperOp::Dec, l),
        &[
            "tag_id.0: U8 = tag(arg1)",
            "switch tag_id.0",
            "  0 ->",
            "    unit.1: {} = {}",
            "    ret unit.1",
            "  default ->",
            "    field_val.2: Str = arg1#1.0",
            "    mod_field.3: {} = call #help_dec.4(field_val.2) : (Str)",
            "    unit.1: {} = {}",
            "    ret unit.1",
        ],
    );
}

#[test]
fn nullable_wrapped_skips_the_null_id_when_numbering_constructors() {
    let arena = Bump::new();
    let mut ids = IdentIds::new();
    let a = list_from_slice(&arena, &[string()]);
    let b = list_from_slice(&arena, &[string()]);
    let l = Layout::Union(UnionLayout::NullableWrapped {
        nullable_id: 1,
        other_tags: list_from_slice(&arena, &[a, b]),
    });
    let body = helper_body(&arena, &mut ids, HelperOp::Inc, l);
    assert!(body.contains("field_val.3: Str = arg1#0.0"), "{}", body);
    assert!(body.contains("field_val.6: Str = arg1#2.0"), "{}", body);
    assert!(!body.contains("arg1#1."), "{}", body);
    assert!(body.contains("  1 ->\n    unit."), "{}", body);
    assert!(body.contains("mask."), "{}", body);
}
