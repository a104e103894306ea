use bumpalo::Bump;
use refcount_codegen::arena::list_from_slice;
use refcount_codegen::arena::List;
use refcount_codegen::help::CodeGenHelp;
use refcount_codegen::help::Context;
use refcount_codegen::help::HelperOp;
use refcount_codegen::ir::BranchInfo;
use refcount_codegen::ir::CallType;
use refcount_codegen::ir::Expr;
use refcount_codegen::ir::Literal;
use refcount_codegen::ir::LowLevel;
use refcount_codegen::ir::ModifyRc;
use refcount_codegen::ir::Param;
use refcount_codegen::ir::Stmt;
use refcount_codegen::layout::Builtin;
use refcount_codegen::layout::IntWidth;
use refcount_codegen::layout::Layout;
use refcount_codegen::layout::UnionLayout;
use refcount_codegen::refcount::rc_ptr_from_data_ptr;
use refcount_codegen::refcount::try_refcount_generic;
use refcount_codegen::symbol::IdentIds;
use refcount_codegen::symbol::JoinPointId;
use refcount_codegen::symbol::Symbol;
use std::collections::HashMap;

const HOME: u32 = 5;
const WORD: i128 = 8;

/// A value as the emitted code sees it.
#[derive(Clone, Debug, PartialEq)]
enum Val {
    Int(i128),
    Unit,
    /// `(elements, length)`; the elements of a list are in `cells`.
    Pair(i128, i128),
    Record(Vec<Val>),
    /// A union value: its tag id, its pointer with any tag bits, its fields.
    Variant(u16, i128, Vec<Val>),
}

/// What a run of emitted code did to the counters, in order.
#[derive(Clone, Debug, PartialEq)]
enum Event {
    Inc(i128, i128),
    Dec(i128, i128),
}

enum Exit {
    Returned,
    Jumped(JoinPointId),
}

struct Machine<'a> {
    procs: HashMap<Symbol, Stmt<'a>>,
    counts: HashMap<i128, i128>,
    cells: HashMap<i128, Val>,
    events: Vec<Event>,
}

type Joins<'s, 'a> = Vec<(JoinPointId, &'s List<'a, Param<'a>>, &'s Stmt<'a>)>;

impl<'a> Machine<'a> {
    fn new() -> Self {
        Machine {
            procs: HashMap::new(),
            counts: HashMap::new(),
            cells: HashMap::new(),
            events: Vec::new(),
        }
    }

    /// A heap block whose data starts at `data`, counted `count` times.
    fn block(&mut self, data: i128, count: i128) -> i128 {
        self.counts.insert(data - WORD, count);
        data
    }

    fn number(env: &HashMap<Symbol, Val>, s: Symbol) -> i128 {
        match &env[&s] {
            Val::Int(n) => *n,
            Val::Variant(_, ptr, _) => *ptr,
            other => panic!("{:?} is not a number", other),
        }
    }

    fn args(list: &List<Symbol>) -> Vec<Symbol> {
        let mut out = Vec::new();
        let mut cur = list;
        while let List::Cons(head, tail) = cur {
            out.push(*head);
            cur = tail;
        }
        out
    }

    fn touch(&mut self, slot: i128, delta: i128) {
        let count = self.counts.get_mut(&slot).expect("a counter of a heap block");
        *count += delta;
    }

    fn eval(&mut self, env: &HashMap<Symbol, Val>, expr: &Expr<'a>) -> Val {
        match expr {
            Expr::Literal(Literal::Int(n)) => Val::Int(*n),
            Expr::Literal(other) => panic!("unexpected literal {:?}", other),
            Expr::Struct(_) => Val::Unit,
            Expr::StructAtIndex { index, structure, .. } => match &env[structure] {
                Val::Pair(elements, len) => Val::Int(if *index == 0 { *elements } else { *len }),
                Val::Record(fields) => fields[*index as usize].clone(),
                other => panic!("{:?} has no fields", other),
            },
            Expr::GetTagId { structure, .. } => match &env[structure] {
                Val::Variant(tag, _, _) => Val::Int(*tag as i128),
                other => panic!("{:?} has no tag", other),
            },
            Expr::UnionAtIndex { structure, tag_id, index, .. } => match &env[structure] {
                Val::Variant(tag, _, fields) => {
                    assert_eq!(tag, tag_id);
                    fields[*index as usize].clone()
                }
                Val::Int(addr) => self.cells[addr].clone(),
                other => panic!("{:?} is not a union value", other),
            },
            Expr::Call(call) => {
                let args = Self::args(call.arguments);
                match call.call_type {
                    CallType::ByName { name, .. } => {
                        let body = self.procs[&name];
                        let mut inner = HashMap::new();
                        inner.insert(Symbol::arg_1(), env[&args[0]].clone());
                        if args.len() > 1 {
                            inner.insert(Symbol::arg_2(), env[&args[1]].clone());
                        }
                        match self.run(&mut inner, &mut Vec::new(), &body) {
                            Exit::Returned => Val::Unit,
                            Exit::Jumped(_) => panic!("a helper left by a jump"),
                        }
                    }
                    CallType::LowLevel { op, .. } => self.primitive(env, op, &args),
                }
            }
        }
    }

    fn primitive(&mut self, env: &HashMap<Symbol, Val>, op: LowLevel, args: &[Symbol]) -> Val {
        let at = |i: usize| Self::number(env, args[i]);
        match op {
            LowLevel::PtrCast => Val::Int(at(0)),
            LowLevel::ListLen => match &env[&args[0]] {
                Val::Pair(_, len) => Val::Int(*len),
                other => panic!("{:?} is not a list", other),
            },
            LowLevel::NumAdd => Val::Int(at(0) + at(1)),
            LowLevel::NumSub => Val::Int(at(0) - at(1)),
            LowLevel::NumMul => Val::Int(at(0) * at(1)),
            LowLevel::NumGte => Val::Int((at(0) >= at(1)) as i128),
            LowLevel::Eq => Val::Int((at(0) == at(1)) as i128),
            LowLevel::And => Val::Int(at(0) & at(1)),
            LowLevel::RefCountInc => {
                self.touch(at(0), at(1));
                self.events.push(Event::Inc(at(0), at(1)));
                Val::Unit
            }
            LowLevel::RefCountDec => {
                self.touch(at(0), -1);
                self.events.push(Event::Dec(at(0), at(1)));
                Val::Unit
            }
        }
    }

    fn run<'s>(
        &mut self,
        env: &mut HashMap<Symbol, Val>,
        joins: &mut Joins<'s, 'a>,
        stmt: &'s Stmt<'a>,
    ) -> Exit {
        let mut cur = stmt;
        loop {
            match cur {
                Stmt::Let(bound, expr, _, next) => {
                    let v = self.eval(env, expr);
                    env.insert(*bound, v);
                    cur = *next;
                }
                Stmt::Switch { cond_symbol, branches, default_branch, .. } => {
                    let value = Self::number(env, *cond_symbol) as u64;
                    let mut chosen: &Stmt = default_branch.1;
                    let mut list: &List<(u64, BranchInfo, Stmt)> = branches;
                    while let List::Cons(head, tail) = list {
                        if head.0 == value {
                            chosen = &head.2;
                            break;
                        }
                        list = tail;
                    }
                    cur = chosen;
                }
                Stmt::Ret(_) => return Exit::Returned,
                Stmt::Join { id, parameters, body, remainder } => {
                    joins.push((*id, *parameters, *body));
                    cur = *remainder;
                }
                Stmt::Jump(id, args) => {
                    let target = joins.iter().rev().find(|join| join.0 == *id).copied();
                    match target {
                        None => return Exit::Jumped(*id),
                        Some((_, params, body)) => {
                            let values: Vec<Val> =
                                Self::args(args).iter().map(|s| env[s].clone()).collect();
                            let mut list = params;
                            let mut i = 0;
                            while let List::Cons(param, tail) = list {
                                env.insert(param.symbol, values[i].clone());
                                i += 1;
                                list = tail;
                            }
                            cur = body;
                        }
                    }
                }
            }
        }
    }
}

/// The generator together with the bodies of every helper it was asked for.
struct Program<'a> {
    root: CodeGenHelp<'a>,
    ids: IdentIds,
    made: usize,
    machine: Machine<'a>,
}

impl<'a> Program<'a> {
    fn new(arena: &'a Bump) -> Self {
        Program {
            root: CodeGenHelp::new(arena, IntWidth::I64, HOME),
            ids: IdentIds::new(),
            made: 0,
            machine: Machine::new(),
        }
    }

    fn make_helpers(&mut self) {
        while self.made < self.root.specializations.len() {
            let entry = self.root.specializations[self.made];
            let mut ctx = Context { recursive_union: None, op: entry.op };
            let body = try_refcount_generic(
                &mut self.root,
                &mut self.ids,
                &mut ctx,
                entry.layout,
                Symbol::arg_1(),
            )
            .expect("a helper that can be made");
            self.machine.procs.insert(entry.symbol, body);
            self.made += 1;
        }
    }

    /// Expands the directive in front of a plain return and runs it with
    /// the value bound to the symbol the directive names.
    fn perform(&mut self, arena: &'a Bump, layout: Layout<'a>, modify: ModifyRc, value: &Val) {
        let target = match modify {
            ModifyRc::Inc(s, _) | ModifyRc::Dec(s) | ModifyRc::DecRef(s) => s,
        };
        let tail = arena.alloc(Stmt::Ret(target));
        let stmt = self.root.expand_refcount_stmt(&mut self.ids, layout, &modify, tail);
        self.make_helpers();
        let mut env = HashMap::new();
        env.insert(target, value.clone());
        match self.machine.run(&mut env, &mut Vec::new(), stmt) {
            Exit::Returned => {}
            Exit::Jumped(id) => panic!("jump to an unknown join point {:?}", id),
        }
    }
}

fn v() -> Symbol {
    Symbol { module_id: 3, ident_id: 1 }
}

fn string<'a>() -> Layout<'a> {
    Layout::Builtin(Builtin::Str)
}

fn small_string() -> Val {
    Val::Pair(0x6f6c6c6568, -5)
}

#[test]
fn inc_then_as_many_decs_restores_a_list_of_strings() {
    let arena = Bump::new();
    let mut p = Program::new(&arena);
    let layout = Layout::Builtin(Builtin::List(arena.alloc(string())));

    let a = p.machine.block(0x1000, 1);
    let b = p.machine.block(0x2000, 7);
    let elements = p.machine.block(0x3000, 2);
    p.machine.cells.insert(elements, Val::Pair(a, 4));
    p.machine.cells.insert(elements + 16, small_string());
    p.machine.cells.insert(elements + 32, Val::Pair(b, 0));
    let list = Val::Pair(elements, 3);
    let before = p.machine.counts.clone();

    p.perform(&arena, layout, ModifyRc::Inc(v(), 3), &list);
    assert_eq!(p.machine.counts[&(a - WORD)], 4);
    assert_eq!(p.machine.counts[&(b - WORD)], 10);
    assert_eq!(p.machine.counts[&(elements - WORD)], 5);
    for _ in 0..3 {
        p.perform(&arena, layout, ModifyRc::Dec(v()), &list);
    }
    assert_eq!(p.machine.counts, before);
}

#[test]
fn dec_releases_the_elements_before_the_list() {
    let arena = Bump::new();
    let mut p = Program::new(&arena);
    let layout = Layout::Builtin(Builtin::List(arena.alloc(string())));
    let a = p.machine.block(0x1000, 1);
    let b = p.machine.block(0x2000, 1);
    let elements = p.machine.block(0x3000, 1);
    p.machine.cells.insert(elements, Val::Pair(a, 4));
    p.machine.cells.insert(elements + 16, Val::Pair(b, 9));

    p.perform(&arena, layout, ModifyRc::Dec(v()), &Val::Pair(elements, 2));
    assert_eq!(
        p.machine.events,
        vec![
            Event::Dec(a - WORD, 8),
            Event::Dec(b - WORD, 8),
            Event::Dec(elements - WORD, 8),
        ]
    );
}

#[test]
fn sentinels_have_no_counter_to_touch() {
    let arena = Bump::new();
    let mut p = Program::new(&arena);
    let list = Layout::Builtin(Builtin::List(arena.alloc(string())));
    let cons = Layout::Union(UnionLayout::NullableUnwrapped {
        nullable_id: false,
        other_fields: list_from_slice(&arena, &[string(), Layout::RecursivePointer]),
    });
    let null = Val::Variant(0, 0, vec![]);
    let empty = Val::Pair(0, 0);

    for modify in [ModifyRc::Inc(v(), 2), ModifyRc::Dec(v()), ModifyRc::DecRef(v())] {
        p.perform(&arena, string(), modify, &small_string());
        p.perform(&arena, list, modify, &empty);
        p.perform(&arena, cons, modify, &null);
    }
    assert!(p.machine.events.is_empty());
    assert!(p.machine.counts.is_empty());
}

#[test]
fn inc_then_as_many_decs_restores_a_linked_list() {
    let arena = Bump::new();
    let mut p = Program::new(&arena);
    let layout = Layout::Union(UnionLayout::NullableUnwrapped {
        nullable_id: false,
        other_fields: list_from_slice(&arena, &[string(), Layout::RecursivePointer]),
    });
    let text_a = p.machine.block(0x1000, 3);
    let text_b = p.machine.block(0x2000, 1);
    let c1 = p.machine.block(0x5000, 1);
    let c2 = p.machine.block(0x6000, 2);
    let c3 = p.machine.block(0x7000, 1);
    let null = Val::Variant(0, 0, vec![]);
    let third = Val::Variant(1, c3, vec![small_string(), null]);
    let second = Val::Variant(1, c2, vec![Val::Pair(text_b, 2), third]);
    let first = Val::Variant(1, c1, vec![Val::Pair(text_a, 9), second]);
    let before = p.machine.counts.clone();

    p.perform(&arena, layout, ModifyRc::Inc(v(), 4), &first);
    for data in [text_a, text_b, c1, c2, c3] {
        assert_eq!(p.machine.counts[&(data - WORD)], before[&(data - WORD)] + 4);
    }
    for _ in 0..4 {
        p.perform(&arena, layout, ModifyRc::Dec(v()), &first);
    }
    assert_eq!(p.machine.counts, before);
    assert_eq!(p.root.specializations.len(), 4);
}

#[test]
fn tag_bits_are_masked_off_before_the_counter_is_found() {
    let arena = Bump::new();
    let mut p = Program::new(&arena);
    let leaf = list_from_slice(&arena, &[string()]);
    let node = list_from_slice(&arena, &[Layout::RecursivePointer, Layout::RecursivePointer]);
    let union_layout = UnionLayout::Recursive(list_from_slice(&arena, &[leaf, node]));
    assert!(union_layout.stores_tag_id_in_pointer(8));
    let layout = Layout::Union(union_layout);

    let s = p.machine.block(0x1000, 1);
    let l1 = p.machine.block(0x5000, 1);
    let l2 = p.machine.block(0x6000, 1);
    let n = p.machine.block(0x7000, 1);
    let left = Val::Variant(0, l1, vec![Val::Pair(s, 3)]);
    let right = Val::Variant(0, l2, vec![small_string()]);
    let top = Val::Variant(1, n | 1, vec![left, right]);
    let before = p.machine.counts.clone();

    p.perform(&arena, layout, ModifyRc::Inc(v(), 1), &top);
    assert_eq!(
        p.machine.events,
        vec![
            Event::Inc(n - WORD, 1),
            Event::Inc(l1 - WORD, 1),
            Event::Inc(s - WORD, 1),
            Event::Inc(l2 - WORD, 1),
        ]
    );
    p.machine.events.clear();
    p.perform(&arena, layout, ModifyRc::Dec(v()), &top);
    assert_eq!(
        p.machine.events,
        vec![
            Event::Dec(s - WORD, 8),
            Event::Dec(l1 - WORD, 8),
            Event::Dec(l2 - WORD, 8),
            Event::Dec(n - WORD, 8),
        ]
    );
    assert_eq!(p.machine.counts, before);
}

#[test]
fn decref_releases_only_the_outermost_block() {
    let arena = Bump::new();
    let mut p = Program::new(&arena);
    let layout = Layout::Builtin(Builtin::List(arena.alloc(string())));
    let a = p.machine.block(0x1000, 2);
    let elements = p.machine.block(0x3000, 2);
    p.machine.cells.insert(elements, Val::Pair(a, 4));

    p.perform(&arena, layout, ModifyRc::DecRef(v()), &Val::Pair(elements, 1));
    assert_eq!(p.machine.events, vec![Event::Dec(elements - WORD, 8)]);
    assert_eq!(p.machine.counts[&(a - WORD)], 2);
    assert!(p.root.specializations.is_empty());
}

#[test]
fn records_and_stack_unions_pass_the_operation_to_their_fields() {
    let arena = Bump::new();
    let mut p = Program::new(&arena);
    let int64 = Layout::Builtin(Builtin::Int(IntWidth::I64));
    let list = Layout::Builtin(Builtin::List(arena.alloc(int64)));
    let plain = list_from_slice(&arena, &[int64]);
    let counted = list_from_slice(&arena, &[string(), int64, list]);
    let stack = Layout::Union(UnionLayout::NonRecursive(list_from_slice(&arena, &[plain, counted])));
    let record = Layout::Struct(list_from_slice(&arena, &[int64, stack, string()]));

    let text_a = p.machine.block(0x1000, 1);
    let text_b = p.machine.block(0x2000, 1);
    let items = p.machine.block(0x3000, 1);
    let inner = Val::Variant(1, 0, vec![Val::Pair(text_a, 2), Val::Int(7), Val::Pair(items, 5)]);
    let value = Val::Record(vec![Val::Int(1), inner, Val::Pair(text_b, 1)]);
    let before = p.machine.counts.clone();

    p.perform(&arena, record, ModifyRc::Inc(v(), 2), &value);
    for data in [text_a, text_b, items] {
        assert_eq!(p.machine.counts[&(data - WORD)], 3);
    }
    p.perform(&arena, record, ModifyRc::Dec(v()), &value);
    p.perform(&arena, record, ModifyRc::Dec(v()), &value);
    assert_eq!(p.machine.counts, before);

    let other = Val::Record(vec![Val::Int(1), Val::Variant(0, 0, vec![Val::Int(3)]), small_string()]);
    p.machine.events.clear();
    p.perform(&arena, record, ModifyRc::Dec(v()), &other);
    assert!(p.machine.events.is_empty());
}

#[test]
fn list_alignment_follows_the_elements() {
    let arena = Bump::new();
    let mut p = Program::new(&arena);
    let wide = Layout::Builtin(Builtin::Int(IntWidth::I128));
    let layout = Layout::Builtin(Builtin::List(arena.alloc(wide)));
    let elements = p.machine.block(0x3000, 1);
    p.perform(&arena, layout, ModifyRc::Dec(v()), &Val::Pair(elements, 2));
    assert_eq!(p.machine.events, vec![Event::Dec(elements - WORD, 16)]);
}

#[test]
fn counter_address_is_one_word_before_the_data() {
    let arena = Bump::new();
    let root = CodeGenHelp::new(&arena, IntWidth::I64, HOME);
    let mut ids = IdentIds::new();
    let data = Symbol { module_id: 3, ident_id: 1 };
    let rc_ptr = Symbol { module_id: 3, ident_id: 2 };
    let tail = arena.alloc(Stmt::Ret(rc_ptr));

    for (mask, pointer, expected) in
        [(false, 0x4000, 0x3ff8), (true, 0x4000, 0x3ff8), (true, 0x4005, 0x3ff8), (false, 0x4005, 0x3ffd)]
    {
        let stmt = rc_ptr_from_data_ptr(&root, &mut ids, data, rc_ptr, mask, tail);
        let mut machine = Machine::new();
        let mut env = HashMap::new();
        env.insert(data, Val::Int(pointer));
        machine.run(&mut env, &mut Vec::new(), &stmt);
        assert_eq!(env[&rc_ptr], Val::Int(expected));
    }
    assert_eq!(ids.len(), 20);
    let _ = HelperOp::Dec;
}
