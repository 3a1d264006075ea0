# spru_script

Scripting support for spru games, verified with Verus: the `script`
attribute's reading of structs and impl blocks, the plan of what the
`scriptable` expansion generates, the plan of the rhai registration impls,
the rhai and lua bindings' own logic (statics maps, type paths, argument
checks, trigger queues, type-parameter lookup), and the example word game's
round machine and reactions.

- `src/` is the verified library.
- `tests/` runs it on concrete values.
- `app/` holds what touches the outside world: syntax trees and the tokens
  the expansions write out from the library's plans, script files, and the
  rhai and lua engines.
