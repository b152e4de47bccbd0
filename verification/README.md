# koilang

A runtime for KoiLang scripts on top of `koicore`, with its logic verified
by Verus.

- `src/` is the verified library:
  - `runtime.rs`: the `Runtime` (environment stack, command cache, labels,
    jumps, probes, execution sessions) and the steps of the execution loop;
    `CommandBuilder`.
  - `strategy.rs`: scan strategies and the nesting-aware `MatchingStrategy`.
  - `handler.rs`: the `CommandHandler` and `Middleware` traits.
  - `error.rs`: `KoiError` and `DispatchResult`.
  - `writer.rs`: the decisions of KoiLang generation (applicable formatting
    options, parameters from arguments, write errors).
  - `command_macro.rs`: the decisions behind `#[command_handler]` and
    `#[command]`, over plain models of attributes and signatures, and the
    strict argument extraction of the generated handlers.
  - `laws.rs`: properties spanning several operations.
  - `outside.rs`, `env_stack.rs`: the calls into `koicore` and std, with the
    contracts the proofs rely on.
  - `text.rs`: decimal notation for error messages.
- `app/` runs scripts (the execution loop over a `koicore` parser, from a
  string, an input source or a file), writes KoiLang through any
  `std::io::Write` sink, and displays errors.
- `tests/` exercises the library.

Environments, middleware and scan strategies are code of the library's
users, of which nothing can be proved. Each environment and each middleware
carries an identifier, kept beside it by the stack and the chain, and the
runtime keeps a ghost record of which ones it asked, where they stood, what it
handed them and what they answered (`Runtime::offers`,
`Runtime::middleware_call`, `Runtime::scan`). The trusted contracts of the
stack tie each record to the environment actually taken and to where it is
put back; the contracts of the dispatch, lifecycle and scan operations state
over these records the order of the calls and how the answers decide the
result. What a handler receives as arguments is recorded from the values the
runtime passes; nothing outside the runtime's own code ties the record to
what the handler reads.
