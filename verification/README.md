# jsonapi

`#[derive(JsonApiModel)]` for JSON:API resources, with its decision procedure
verified in Verus.

- `src/` — the verified library: the derive input as plain values
  (`input`), the nested-attribute grammar (`meta`), the `jsonapi` and `serde`
  attributes (`attrs`), the key serde writes each field under
  (`serde_name`: `rename`, `rename_all` and their casing rules), the
  expansion plan and its errors (`model`), the
  resource a derived model builds (`resource`), and the laws that hold of
  every plan and resource (`laws`). `text` holds the calls the library
  makes on text: `str::to_lowercase`, `String::push` and `syn`'s
  string-literal decoding.
- `app/` — the token plumbing around it: reading the derive input with
  `syn`, and writing the `JsonApiModel` impl with `quote`.
- `tests/` — the derive's behaviour on concrete structs.
