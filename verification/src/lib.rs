//! Reference-count lowering for a monomorphized functional IR.
//!
//! Abstract `Inc`, `Dec` and `DecRef` directives are turned into concrete
//! statements that locate the reference-count slot of a value from its
//! layout, visit its heap children through specialized helper procedures,
//! and call the runtime primitives that update the counter.
//!
//! Every node of a layout or of a statement lives in a bump arena and is
//! shared by reference, so values of the IR are plain `Copy` data whose
//! mathematical meaning is the value itself.
//!
//! * [`arena`]: allocation in the arena, and the arena-allocated list;
//! * [`symbol`]: symbols and the table that mints them;
//! * [`layout`]: layouts of values and the queries on them;
//! * [`ir`]: expressions and statements;
//! * [`help`]: the generator state and the registry of helpers;
//! * [`refcount`]: the lowering itself;
//! * [`shape`], [`laws`]: what holds of the form of every emitted statement;
//! * [`machine`], [`runs`]: what every emitted statement does when it runs;
//! * [`tree`]: what a program of helpers does to a whole value tree.

pub mod arena;
pub mod help;
pub mod ir;
pub mod laws;
pub mod layout;
pub mod machine;
pub mod refcount;
pub mod runs;
pub mod shape;
pub mod symbol;
pub mod tree;
