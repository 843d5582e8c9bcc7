# jsparser

A small JavaScript lexer and parser, verified with Verus, with an interpreter
around it.

- `src/` is the verified library:
  - `token` — token kinds, their texts and predicates;
  - `lexer` — the lexer; `lex` states what one step of it reads, and the
    lexer proves that it reads exactly that;
  - `expr` — the syntax tree and its mathematical value `ExprView`;
  - `grammar` — what the parser computes, step by step, over a mathematical
    parser state, including the exact message of each error it reports;
  - `parser` — the recursive-descent parser, proved to compute what
    `grammar` describes;
  - `scope` — the variable frames of a running program;
  - `flow` — the control flags (`break`, `continue`, `return`), how a
    statement of a block is run, and the loop driver: a step function from
    the state of a running loop and what just happened to what to run next;
  - `text`, `utility` — text helpers and error messages.
- `app/` is the program around it: the interpreter (its values include
  floating-point numbers; it runs loops by the commands of `flow`), the console and WebAssembly entry points, and the
  HTTP request that `ajax` makes.
- `tests/` runs the library on concrete programs.

Two maps keyed by strings are lists in the library: the entries of an object
literal (`Expr::Object`) and the frames of a running program (`scope`). Each
is a `Vec` of entries in which no key occurs twice, an invariant the
contracts state; a later entry for a key replaces the earlier one in place.
Verus proves little about a `HashMap` keyed by `String`, and a hash map's
order of iteration is not fixed, so the debug text of an object prints its
entries as a list in the order they were written.
