//! Target triples, linker selection and linker arguments of the TypedAnt
//! compiler, the compiler's command-line values, and the scope and generic-item
//! bookkeeping of a function being compiled, with their contracts proved.

pub mod args;
pub mod generics;
pub mod link;
pub mod state;
pub mod text;
pub mod triple;
