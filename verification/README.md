# air_workspace

File selection and settings resolution for the Air R formatter, written in Verus.

`src/` is the verified library:

- `path.rs`, `order.rs`: a path model, the text of a Unix path with its
  components (root, `.`, `..` and names, parsed by `parse` in `path.rs`), with a
  total order and whole-component prefix matching.
- `resolve.rs`: `PathResolver`, a sorted map from directories to values that
  resolves a path to the value of its closest registered directory.
- `gitignore.rs`: the trusted interface to the `ignore` crate's gitignore matcher.
- `file_patterns.rs`, `settings.rs`: rooted and unrooted `exclude` patterns and the
  default `exclude` / `include` patterns.
- `discovery.rs`: what the directory walk does with each entry, and the walk up
  from the supplied paths looking for `air.toml` files.
- `commands.rs`: the decisions of `air format`, for paths and for stdin.
- `workspaces.rs`: the language server's settings per workspace folder.
- `config.rs`, `xtask.rs`, `sorted.rs`: small helpers.

`app/` holds the unverified edges: file system walks, environment variables,
the language server plumbing and running `rustfmt`.

`tests/` runs the library on concrete values.
