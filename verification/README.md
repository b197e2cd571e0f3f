# RenderX

An RSX (JSX-like) markup language for Rust: grammars that read markup from
procedural-macro token trees, generators for the code the macros expand to,
and an HTML renderer for the document tree that code builds. The library in
`src/` is verified with Verus; `app/` holds the macro entry points over
`proc_macro2` token streams and what cannot be verified (floats).

Layout of `src/`:

- `token`: a plain-value model of token trees, the generated token trees,
  and the source text of tokens.
- `text`: small text operations shared by the readers and the renderer.
- `parser`: the markup grammar (`grammar`, with its token cursor), its syntax
  tree (`ast`), the generated code (`output`), token flattening and comparison,
  and the RSX grammar (`rsx`) with code names and components.
- `component`: the component macro: reading a function, and the code it
  expands to.
- `basic`: a simpler grammar whose root is one tag, with its code generator
  and buffer renderer.
- `dom`, `render`, `server_render`: the document tree, the conversions into
  it, and rendering it to HTML.
- `default_detector`: picking a type's default value where it has one.
- `makro`: the messages macro errors are reported with.
- `emit`: building generated code.
