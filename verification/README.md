# gosub_engine

The verified core of the gosub browser engine's CSS3 parser and of its JavaScript binding layer.

- `src/css3` — the CSS3 parser. It reads a stream of tokens (`css3::tokens`) and turns it into
  stylesheets, rules, declarations and component values. `css3::model` states, for every
  consuming step, what it yields on a token sequence from a given position; each parse function
  is proved to do exactly that, and the laws at the end of the model are proved over it.
- `src/js` — JavaScript errors and value types, the V8 platform's one-time initialisation
  (`PlatformState`), and the store that keeps each V8 context's isolate, handle scope and
  context scope under the context's id, with reference counts and deferred dropping.
- `src/web_executor` — the web executor's errors, the arguments and callback state of Rust
  functions bound into V8, and the structs whose methods are bound.
- `src/wasm` — the options and the output of the WebAssembly renderer.
- `app/` — what stays ordinary Rust: error types with `Display`, the process-wide atomic
  flags around the platform initialisation, and the renderer's JavaScript-facing types.
