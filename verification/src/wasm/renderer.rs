//! The options and the output of the WebAssembly renderer.
use js_sys::Promise;
use vstd::prelude::*;

verus! {

/// The `Promise` type of js-sys: a handle to a JavaScript promise.
#[verifier::external_type_specification]
#[verifier::external_body]
#[verifier::reject_recursive_types(T)]
#[verifier::reject_recursive_types(E)]
pub struct ExPromise<T, E>(Promise<T, E>);

/// The `JsValue` type of wasm-bindgen: a handle to a JavaScript value. `Promise` takes it as
/// the default of both its type parameters, so the promise held below needs it declared.
#[verifier::external_type_specification]
#[verifier::external_body]
pub struct ExJsValue(wasm_bindgen::JsValue);

/// What the renderer is asked to render.
pub struct RendererOptions {
    pub id: String,
    pub html: String,
    pub url: String,
    pub debug: bool,
}

impl RendererOptions {
    pub fn new(id: String, html: String, url: String, debug: bool) -> (r: Self)
        ensures
            r == (RendererOptions { id, html, url, debug }),
    {
        RendererOptions { id, html, url, debug }
    }
}

/// What the renderer reports: whether it started, the errors, and the promise of its run.
pub struct RendererOutput {
    successful: bool,
    errors: String,
    promise: Promise,
}

/// `<Promise as Clone>::clone` from js-sys: another handle to the same JavaScript promise.
/// Nothing is stated of the handle: a `Promise` is opaque here.
#[verifier::external_body]
fn clone_promise(p: &Promise) -> Promise {
    p.clone()
}

impl RendererOutput {
    pub closed spec fn successful_of(&self) -> bool {
        self.successful
    }

    pub closed spec fn errors_of(&self) -> Seq<char> {
        self.errors@
    }

    pub closed spec fn promise_of(&self) -> Promise {
        self.promise
    }

    pub fn is_successful(&self) -> (b: bool)
        ensures
            b == self.successful_of(),
    {
        self.successful
    }

    pub fn get_errors(&self) -> (s: String)
        ensures
            s@ == self.errors_of(),
    {
        self.errors.clone()
    }

    pub fn get_promise(&self) -> Promise {
        clone_promise(&self.promise)
    }

    /// The output of a renderer that started: no errors, and the promise of its run.
    pub fn ok(promise: Promise) -> (r: Self)
        ensures
            r.successful_of(),
            r.errors_of() == Seq::<char>::empty(),
            r.promise_of() == promise,
    {
        RendererOutput { successful: true, errors: String::new(), promise }
    }
}

} // verus!
