//! A V8 context of the web executor: its isolate, handle scope, context and context scope,
//! kept together in one value.
use vstd::prelude::*;

use crate::types::Error;
use crate::web_executor::js::JSError;

verus! {

/// The isolate `I`, handle scope `H`, context `X` and context scope `S` of one V8 context.
pub struct V8Ctx<I, H, X, S> {
    isolate: I,
    handle_scope: H,
    ctx: X,
    context_scope: S,
}

/// The message of the error that `report_exception` makes.
pub open spec fn exception_message(exception: Option<String>, message: Option<String>) -> Seq<char> {
    match exception {
        Some(e) => e@,
        None => match message {
            Some(m) => m@,
            None => "unknown error"@,
        },
    }
}

impl<I, H, X, S> V8Ctx<I, H, X, S> {
    pub closed spec fn parts(&self) -> (I, H, X, S) {
        (self.isolate, self.handle_scope, self.ctx, self.context_scope)
    }

    /// The context made of the given parts.
    pub fn new(isolate: I, handle_scope: H, ctx: X, context_scope: S) -> (r: Result<Self, Error>)
        ensures
            r is Ok,
            r->Ok_0.parts() == (isolate, handle_scope, ctx, context_scope),
    {
        Ok(V8Ctx { isolate, handle_scope, ctx, context_scope })
    }

    /// The context scope, to be used in place.
    pub fn scope(&mut self) -> (r: &mut S)
        ensures
            *r == old(self).parts().3,
            final(self).parts() == (
                old(self).parts().0,
                old(self).parts().1,
                old(self).parts().2,
                *final(r),
            ),
    {
        &mut self.context_scope
    }

    /// The isolate, to be used in place.
    pub fn isolate(&mut self) -> (r: &mut I)
        ensures
            *r == old(self).parts().0,
            final(self).parts() == (
                *final(r),
                old(self).parts().1,
                old(self).parts().2,
                old(self).parts().3,
            ),
    {
        &mut self.isolate
    }

    /// The handle scope, to be used in place.
    pub fn handle_scope(&mut self) -> (r: &mut H)
        ensures
            *r == old(self).parts().1,
            final(self).parts() == (
                old(self).parts().0,
                *final(r),
                old(self).parts().2,
                old(self).parts().3,
            ),
    {
        &mut self.handle_scope
    }

    /// The context, to be used in place.
    pub fn context(&mut self) -> (r: &mut X)
        ensures
            *r == old(self).parts().2,
            final(self).parts() == (
                old(self).parts().0,
                old(self).parts().1,
                *final(r),
                old(self).parts().3,
            ),
    {
        &mut self.ctx
    }

    /// The compile error that a caught exception becomes: the exception's text if there is
    /// one, else the message's text if there is one, else "unknown error".
    pub fn report_exception(exception: Option<String>, message: Option<String>) -> (e: Error)
        ensures
            e is JS,
            e->JS_0 is Compile,
            e->JS_0->Compile_0@ == exception_message(exception, message),
    {
        if let Some(e) = exception {
            return Error::JS(JSError::Compile(e));
        }
        if let Some(m) = message {
            return Error::JS(JSError::Compile(m));
        }
        let mut s = String::new();
        s.append("unknown error");
        Error::JS(JSError::Compile(s))
    }
}

} // verus!
