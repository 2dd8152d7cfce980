# aios_core

The verified core of a plant-model library, written in Verus.

- `src/` is the library, every function of it verified: the integer rules of
  curved-primitive tessellation (`discretise`, `facet_caliber`), the spatial
  acceleration tree with its refno index over an `rstar` r-tree (`spatial`,
  `accel_tree`), the unit cylinder's triangles, mesh merging and OBJ face
  lines (`mesh`), the SurrealQL statements of the model queries (`sql`),
  read routing and its errors (`direct_reads`), the installation protocol of
  the `inst_meta` compatibility functions (`inst_meta`), wall-door grouping
  (`wall_doors`), UDA name tables over two `dashmap` maps, merged from the
  projects' `bincode` files (`uda`), sweep solid kinds (`sweep`), the choice of
  elements to query (`selection`) and
  the configuration file name (`config`).
- `app/` is the runtime around it: floating-point measurements, file and
  database I/O, and the task-local read contexts.
- `tests/` exercises the library on concrete values.

The outside collections are trusted: `spatial::BoxTree` states, over the
name `tree_entries`, what `rstar` does with its entries, and the wrappers in
`uda` state, over `key_names` and `name_keys`, what `DashMap` does, and
over `uda_file_names` what `bincode` decodes; the refno index keeps each
element's boxes in a `smallvec::SmallVec`, named by `listed_boxes`.
Everything built on them is proved against those statements.
