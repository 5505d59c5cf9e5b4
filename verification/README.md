# delve

The decision logic of `delve`, a DNS delegation-path tracer, and of `cdt`,
the bundle command that ships it, with every function's contract stated
and proved in Verus.

- `src/` is the verified library: argument and configuration parsing,
  retention arithmetic, node paths, the explore loop's step function and
  its screens' key handling, pane-split and scroll arithmetic, colours, the
  fork comparison of sibling paths, branch planning and the attachment of
  branch nodes to a trace, the outline and card text of a trace, the
  session subcommands' output, and the text the tool prints. The float
  geometry of the diagram layouts is not part of it.
- `tests/` runs the library on concrete values.
- `app/` is the executable around it: clap parsing, reading `delve.yaml`,
  the environment and the terminal, and the `cdt` manifest.
