# sierra

A verified library in two parts.

- The Sierra side (`ids`, `program`, `values`, `extensions`, `context`, `simulation`,
  `harness`): generic library functions of the core library are looked up by name,
  specialized against a type context (a bijective map between concrete type names and
  what they stand for, held in a `bimap::BiMap`) and simulated on runtime values. The
  contract of `simulation::simulate` is the spec function `spec_simulate`: for each
  library function, the outputs and the branch taken, or the error, for every input.
- The definitions side (`defs`): a database of crate roots, parsed files and macro
  plugins, and the queries over it: the main file, directory, files, items, submodules
  (explicit ones and the virtual ones that plugins generate) and item-by-name of each
  module, the modules of a crate and the modules each file belongs to. Each query's contract is a spec function over the
  database's inputs (`defs::spec`, `defs::items`, `defs::modules`).

`laws` and `defs::laws` hold the properties that relate several operations, proved as
proof functions: what refunding gas undoes, how checked and wrapping arithmetic agree,
what a read of the database gives back after a write, how a module's files, items and
submodules come from its parsed files, and which modules a file belongs to.

Verify with Verus; the tests under `tests/` run the library on concrete values.
