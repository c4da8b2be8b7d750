# vpi_export

Values and rules for exporting Rust functions as VPI tasks to a Verilog
simulator, verified with Verus.

- `src/` is the verified library: bit vectors (`bitvec`, `bits`) and the
  parser of Verilog vector literals (`literal`), clocks and their schedule
  (`clk`), simulation times (`time`), the conversion of values to and from
  the simulator's formats (`value`), task arguments (`marker`), task results
  and generated names (`task`), the registry of task-registering functions
  (`registry`) and the lookup of simulator objects (`simulator`).
- `app/` holds what runs inside the simulator: the VPI declarations, handles,
  callbacks and start-up registration, all built on the library, and the
  functions that generate the code for a `vpi_task` attribute and for a
  `bitvec` literal. These take and return token streams; they are not
  procedural macros themselves, since this package builds no
  procedural-macro crate.
- `tests/` exercises the library on concrete values.
