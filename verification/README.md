# ant_link

The linking and command-line logic of the TypedAnt compiler, verified with Verus.

- `src/text.rs`: string helpers (equality, splitting on `-`, blank test, `lib` prefix).
- `src/args.rs`: the command line (`Args`) and its optimisation-level values.
- `src/triple.rs`: target triples, the host's default target.
- `src/link.rs`: linker flags per binary interface, linker choice, linker
  arguments, and the layout of the static library.
- `src/generics.rs`, `src/state.rs`: scopes and generic items of the function
  being compiled.
- `app/`: the unverified edge: clap parsing, running `cc` and the linker,
  reading the host platform and the compiler directory.

The compiler's accessors of typed expressions, statements and the type context
(on `FunctionState` and `GlobalState`) are not here: they wrap types of the
compiler's own `ant_ast` and `ant_type_checker` crates, which are not available
to this crate. The scope table is shared through `Rc` alone (no `RefCell`,
which Verus does not support).
