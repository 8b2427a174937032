# mini_c

The front and middle of a compiler for MiniC, a small C-like language with
structs, enums and `match`: a type checker that turns an unchecked syntax
tree into one annotated with types (or reports the first rule the program
breaks), and a generator of three-address code for the `main` function of a
checked program.

Both are verified with Verus against specifications written as spec
functions over mathematical views of the syntax trees:

- `src/ir/` — the syntax trees (`ast`) and three-address code (`tac`), with
  their views.
- `src/semantic/rules.rs` — the typing rules; `type_checker.rs` computes
  exactly what they define, messages included; `properties.rs` states what
  holds of every program (scoping, `main`, signatures, compatibility).
- `src/codegen/lowering.rs` — what the generator emits; `tac_code_gen.rs`
  emits exactly that; `scope.rs` proves that translation only moves the
  name counters forward and never lets a `match` binding outlive its arm.
- `src/text.rs` — decimal numbers and quoting as `{:?}` writes it (through `char::escape_debug` beyond ASCII), as used in
  messages and generated names.
