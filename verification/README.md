# void

Void is a small scripting language with a package manager (`vpm`) and a
package registry (`void-registry`). This crate holds their logic as a library
verified with Verus, and the programs around it.

## Layout

- `src/` — the verified library.
  - `lexer`, `parser`, `ast`: source text to tokens to a syntax tree, each
    step stated against a mathematical definition of its result.
  - `diagnostics`, `repl`, `modules`, `clock`, `paths`, `text`: what the
    interpreter decides around evaluation — colours, the prompt, where a
    module is found, path shapes, and the string routines the rest uses.
  - `vpm/`: package names and paths, the lock file and the saved logins, the
    npm import, and what each command prints or refuses.
  - `registry/`: what the registry accepts, who may publish what, the upload
    rules, and the HTML pages and JSON replies it builds.
- `tests/` — tests of the library on concrete values.
- `app/` — the executables: the interpreter itself (its values are
  floating-point numbers and shared objects), the `vpm` command line with its
  file and network I/O, and the registry's web server and database. One
  binary serves all three, chosen by the name it is started under.

Password hashing (`argon2`), SHA-256 (`sha2`) and random identifiers (`uuid`)
are called from the library through small wrappers whose contracts say what
the library relies on.
