# axfetchum

Typed TypeScript API clients generated from Axum route metadata, written in
Verus and proved against its contracts.

## Layout

- `src/` — the verified library.
  - `types.rs`: HTTP methods, path parameters, route definitions and collections,
    and the extraction of `{param}` path parameters.
  - `builder.rs`: `ApiRouter` / `RouteBuilder`, which register routes with an
    `axum::Router` and record their metadata. `route` registers a handler for
    one method; `route` and `merge` require that the route or router fits what
    is registered already (`can_route` and `can_merge` test it).
  - `route_table.rs`: the `axum::Router` together with the record of the
    (path, method) pairs registered on it; its three operations are the calls
    into Axum, and their contracts say when Axum takes a route or a merge.
  - `route_paths.rs`: the route paths Axum accepts (escaped braces `{{` `}}`,
    captures `{name}` at the end of a segment, a final catch-all `{*name}`),
    path shapes, and which two paths the router cannot hold together.
  - `names.rs`: module paths stripped from type names, handler names picked out of
    function paths, `snake_case` to `camelCase`.
  - `ts_types.rs`: Rust type names mapped to TypeScript types and imports.
    Generic wrappers nest: `Vec<Option<T>>` becomes `(T | null)[]`, an array
    of nullable elements.
  - `import_path.rs`: the relative import path from the client to the bindings,
    reading paths with `/` as the separator (as on Unix).
  - `snippets.rs`, `generator.rs`: the pieces of the generated client and
    `generate`, which assembles it; `check_in_sync`, the comparison behind `check`.
  - `order.rs`: lexicographic order and sorted listings (imports, groups).
  - `text.rs`: character-level helpers.
  - `laws.rs`: properties that span functions (camelCase idempotence, stripping
    idempotence, `Vec`/`Option` mapping, whitespace around type names, sorted
    unique imports and groups, flat output equal to grouped output without
    groups, grouped output independent of how groups interleave, ...).
- `app/` — the unverified edge: the `api_routes!` macro, checked route and
  merge helpers, handler-based route registration (`get`, `post`, ... named after the handler via
  `std::any::type_name`), `body::<T>()`-style type setters, and the file and
  process work of `generate_to_file` and `check`.
- `tests/` — tests of the library.
