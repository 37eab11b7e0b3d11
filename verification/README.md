# babel42

Static analysis of ROS2 workspaces: package manifests, interface files,
CMakeLists.txt, setup.py, launch files, xacro files and node sources are read
into a project model (dependency graph, launch include graph, runtime graph),
and check rules report what looks wrong (undeclared dependencies, cycles,
topics without publishers, manifests without description, ...).

## Layout

- `src/` — the library, verified with Verus. Each reader and each rule states
  in its contract what it returns; laws that span several calls are proof
  functions (for example, that a project's skip list only takes dependency
  findings away, or that the SARIF report lists each rule once).
  Outside crates (`quick-xml`, `tree-sitter`, `regex`, `petgraph`,
  `serde_yaml`) are called through small trusted wrappers whose contracts name
  what they return.
- `app/` — the command line (`analyze`, `export`, `check`): it walks the
  workspace on disk, reads the files, hands their text to the library and
  prints the results (human text, JSON or SARIF).
- `tests/` — tests of the library on concrete inputs.

## Usage

```bash
babel42 analyze <path>
babel42 check <path> --fail-on error
babel42 export <path> --format json
```
