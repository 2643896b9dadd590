//! The arguments and callbacks of Rust functions bound into V8. A context is any copyable
//! handle `C`, and a V8 value handle any copyable `V`.
use vstd::prelude::*;

use crate::js::v8::value::V8Value;
use crate::types::Error;
use crate::web_executor::js::JSError;

verus! {

/// The arguments a bound function was called with, read one after another or by index.
pub struct V8Args<V> {
    next: usize,
    args: Vec<V>,
}

/// The values of a sequence of context-tagged values.
pub open spec fn values_of<C, V>(s: Seq<V8Value<C, V>>) -> Seq<V> {
    s.map_values(|x: V8Value<C, V>| x.value)
}

/// The values tagged with one context.
pub open spec fn tagged<C, V>(s: Seq<V>, ctx: C) -> Seq<V8Value<C, V>> {
    s.map_values(|v: V| V8Value { context: ctx, value: v })
}

fn values_in<C: Copy, V: Copy>(args: &Vec<V8Value<C, V>>) -> (r: Vec<V>)
    ensures
        r@ == values_of(args@),
{
    let mut r: Vec<V> = Vec::new();
    let mut i: usize = 0;
    while i < args.len()
        invariant
            i <= args.len(),
            r@ == values_of(args@.subrange(0, i as int)),
        decreases args.len() - i,
    {
        r.push(args[i].value);
        i = i + 1;
        proof {
            assert(values_of(args@.subrange(0, i as int)) =~= r@);
        }
    }
    proof {
        assert(args@.subrange(0, args.len() as int) =~= args@);
    }
    r
}

fn tag_all<C: Copy, V: Copy>(args: &Vec<V>, ctx: C) -> (r: Vec<V8Value<C, V>>)
    ensures
        r@ == tagged(args@, ctx),
{
    let mut a: Vec<V8Value<C, V>> = Vec::new();
    let mut i: usize = 0;
    while i < args.len()
        invariant
            i <= args.len(),
            a@ == tagged(args@.subrange(0, i as int), ctx),
        decreases args.len() - i,
    {
        a.push(V8Value { context: ctx, value: args[i] });
        i = i + 1;
        proof {
            assert(tagged(args@.subrange(0, i as int), ctx) =~= a@);
        }
    }
    proof {
        assert(args@.subrange(0, args.len() as int) =~= args@);
    }
    a
}

impl<V: Copy> V8Args<V> {
    /// The argument values, in order.
    pub closed spec fn values(&self) -> Seq<V> {
        self.args@
    }

    /// How many arguments have been read one after another.
    pub closed spec fn read(&self) -> int {
        self.next as int
    }

    /// Arguments made of the values of the given context-tagged values, none read yet.
    pub fn new<C: Copy>(args: Vec<V8Value<C, V>>, _ctx: C) -> (r: Self)
        ensures
            r.values() == values_of(args@),
            r.read() == 0,
    {
        V8Args { next: 0, args: values_in(&args) }
    }

    /// The raw argument values.
    pub fn v8(&self) -> (r: &[V])
        ensures
            r@ == self.values(),
    {
        self.args.as_slice()
    }

    /// The next argument not read yet, if any.
    pub fn next(&mut self) -> (r: Option<V>)
        ensures
            final(self).values() == old(self).values(),
            (r, final(self).read()) == next_step(old(self).values(), old(self).read()),
            old(self).read() < old(self).values().len() ==> {
                &&& r == Some(old(self).values()[old(self).read()])
                &&& final(self).read() == old(self).read() + 1
            },
            old(self).read() >= old(self).values().len() ==> {
                &&& r is None
                &&& final(self).read() == old(self).read()
            },
    {
        if self.next < self.args.len() {
            let value = self.args[self.next];
            self.next = self.next + 1;
            Some(value)
        } else {
            None
        }
    }

    /// The argument at the index, tagged with the context, if there is one.
    pub fn get<C: Copy>(&self, index: usize, ctx: C) -> (r: Option<V8Value<C, V>>)
        ensures
            index < self.values().len() ==> r == Some(
                V8Value { context: ctx, value: self.values()[index as int] },
            ),
            index >= self.values().len() ==> r is None,
    {
        if index < self.args.len() {
            Some(V8Value { context: ctx, value: self.args[index] })
        } else {
            None
        }
    }

    /// The number of arguments.
    pub fn len(&self) -> (n: usize)
        ensures
            n == self.values().len(),
    {
        self.args.len()
    }

    /// All arguments, tagged with the context.
    pub fn as_vec<C: Copy>(&self, ctx: C) -> (r: Vec<V8Value<C, V>>)
        ensures
            r@ == tagged(self.values(), ctx),
    {
        tag_all(&self.args, ctx)
    }
}

/// The callback state of a bound function: its context, its arguments, and the value it
/// returns once it sets one.
pub struct V8FunctionCallBack<C, V> {
    ctx: C,
    args: V8Args<V>,
    ret: Result<V, Error>,
}

/// The message a callback holds until it returns a value.
pub open spec fn not_called_message() -> Seq<char> {
    "function was not called"@
}

fn not_called() -> (e: Error)
    ensures
        e is JS,
        e->JS_0 is Execution,
        e->JS_0->Execution_0@ == not_called_message(),
{
    let mut m = String::new();
    m.append("function was not called");
    Error::JS(JSError::Execution(m))
}

impl<C: Copy, V: Copy> V8FunctionCallBack<C, V> {
    pub closed spec fn context_of(&self) -> C {
        self.ctx
    }

    pub closed spec fn args_of(&self) -> V8Args<V> {
        self.args
    }

    pub closed spec fn returned(&self) -> Result<V, Error> {
        self.ret
    }

    /// A callback for the context and arguments that has not returned a value yet.
    pub fn new(ctx: C, args: V8Args<V>) -> (r: Result<Self, Error>)
        ensures
            r is Ok,
            r->Ok_0.context_of() == ctx,
            r->Ok_0.args_of() == args,
            r->Ok_0.returned() is Err,
            r->Ok_0.returned()->Err_0 is JS,
            r->Ok_0.returned()->Err_0->JS_0 is Execution,
            r->Ok_0.returned()->Err_0->JS_0->Execution_0@ == not_called_message(),
    {
        Ok(V8FunctionCallBack { ctx, args, ret: Err(not_called()) })
    }

    /// The context of the call.
    pub fn context(&mut self) -> (c: C)
        ensures
            c == old(self).context_of(),
            *final(self) == *old(self),
    {
        self.ctx
    }

    /// The arguments of the call.
    pub fn args(&mut self) -> (a: &V8Args<V>)
        ensures
            *a == old(self).args_of(),
            *final(self) == *old(self),
    {
        &self.args
    }

    /// The number of arguments.
    pub fn len(&self) -> (n: usize)
        ensures
            n == self.args_of().values().len(),
    {
        self.args.len()
    }

    /// Sets the value the call returns.
    pub fn ret(&mut self, value: V)
        ensures
            final(self).returned() == Ok::<V, Error>(value),
            final(self).context_of() == old(self).context_of(),
            final(self).args_of() == old(self).args_of(),
    {
        self.ret = Ok(value);
    }

    /// What the call returned, once the callback is done with it.
    pub fn into_returned(self) -> (r: Result<V, Error>)
        ensures
            r == self.returned(),
    {
        self.ret
    }
}

/// What a bound function hands back to V8 once its callback has run: the value it returned,
/// or an exception with the message of its error.
#[derive(Debug)]
pub enum CallbackOutcome<V> {
    Return(V),
    Throw(String),
}

/// Decides what the call hands back from what the callback left.
pub fn callback_outcome<V>(ret: Result<V, Error>) -> (r: CallbackOutcome<V>)
    ensures
        match ret {
            Ok(v) => r == CallbackOutcome::Return(v),
            Err(Error::JS(e)) => r is Throw && r->Throw_0@ == e.message(),
        },
{
    match ret {
        Ok(value) => CallbackOutcome::Return(value),
        Err(e) => CallbackOutcome::Throw(e.to_string()),
    }
}

/// The arguments of a variadic bound function, as V8 handed them over.
pub struct V8VariadicArgsInternal<V> {
    next: usize,
    args: Vec<V>,
}

impl<V: Copy> V8VariadicArgsInternal<V> {
    pub closed spec fn values(&self) -> Seq<V> {
        self.args@
    }

    pub closed spec fn read(&self) -> int {
        self.next as int
    }

    /// Arguments with the given values, none read yet.
    pub fn from_values(args: Vec<V>) -> (r: Self)
        ensures
            r.values() == args@,
            r.read() == 0,
    {
        V8VariadicArgsInternal { next: 0, args }
    }

    /// The raw argument values.
    pub fn v8(&self) -> (r: &[V])
        ensures
            r@ == self.values(),
    {
        self.args.as_slice()
    }

    /// The next argument not read yet, if any.
    pub fn next(&mut self) -> (r: Option<V>)
        ensures
            final(self).values() == old(self).values(),
            (r, final(self).read()) == next_step(old(self).values(), old(self).read()),
            old(self).read() < old(self).values().len() ==> {
                &&& r == Some(old(self).values()[old(self).read()])
                &&& final(self).read() == old(self).read() + 1
            },
            old(self).read() >= old(self).values().len() ==> {
                &&& r is None
                &&& final(self).read() == old(self).read()
            },
    {
        if self.next < self.args.len() {
            let value = self.args[self.next];
            self.next = self.next + 1;
            Some(value)
        } else {
            None
        }
    }

    /// The argument at the index, tagged with the context, if there is one.
    pub fn get<C: Copy>(&self, index: usize, ctx: C) -> (r: Option<V8Value<C, V>>)
        ensures
            index < self.values().len() ==> r == Some(
                V8Value { context: ctx, value: self.values()[index as int] },
            ),
            index >= self.values().len() ==> r is None,
    {
        if index < self.args.len() {
            Some(V8Value { context: ctx, value: self.args[index] })
        } else {
            None
        }
    }

    /// The number of arguments.
    pub fn len(&self) -> (n: usize)
        ensures
            n == self.values().len(),
    {
        self.args.len()
    }

    /// All arguments, tagged with the context.
    pub fn as_vec<C: Copy>(&self, ctx: C) -> (r: Vec<V8Value<C, V>>)
        ensures
            r@ == tagged(self.values(), ctx),
    {
        tag_all(&self.args, ctx)
    }

    /// All arguments, tagged with the context, as variadic arguments with none read yet.
    pub fn variadic<C: Copy>(&self, ctx: C) -> (r: V8VariadicArgs<C, V>)
        ensures
            r.values() == tagged(self.values(), ctx),
            r.read() == 0,
    {
        V8VariadicArgs { next: 0, args: self.as_vec(ctx) }
    }
}

/// The arguments of a variadic bound function, each tagged with its context.
pub struct V8VariadicArgs<C, V> {
    next: usize,
    args: Vec<V8Value<C, V>>,
}

impl<C: Copy, V: Copy> V8VariadicArgs<C, V> {
    pub closed spec fn values(&self) -> Seq<V8Value<C, V>> {
        self.args@
    }

    pub closed spec fn read(&self) -> int {
        self.next as int
    }

    /// The argument at the index, if there is one.
    pub fn get(&self, index: usize) -> (r: Option<&V8Value<C, V>>)
        ensures
            index < self.values().len() ==> r is Some && *r.unwrap() == self.values()[index as int],
            index >= self.values().len() ==> r is None,
    {
        if index < self.args.len() {
            Some(&self.args[index])
        } else {
            None
        }
    }

    /// The number of arguments.
    pub fn len(&self) -> (n: usize)
        ensures
            n == self.values().len(),
    {
        self.args.len()
    }

    /// All arguments.
    pub fn as_vec(&self) -> (r: &Vec<V8Value<C, V>>)
        ensures
            r@ == self.values(),
    {
        &self.args
    }
}

/// The callback state of a variadic bound function.
pub struct V8FunctionCallBackVariadic<C, V> {
    ctx: C,
    args: V8VariadicArgsInternal<V>,
    ret: Result<V, Error>,
}

impl<C: Copy, V: Copy> V8FunctionCallBackVariadic<C, V> {
    pub closed spec fn context_of(&self) -> C {
        self.ctx
    }

    pub closed spec fn args_of(&self) -> V8VariadicArgsInternal<V> {
        self.args
    }

    pub closed spec fn returned(&self) -> Result<V, Error> {
        self.ret
    }

    /// A callback for the context and raw arguments that has not returned a value yet.
    pub fn new(ctx: C, args: Vec<V>) -> (r: Self)
        ensures
            r.context_of() == ctx,
            r.args_of().values() == args@,
            r.args_of().read() == 0,
            r.returned() is Err,
            r.returned()->Err_0 is JS,
            r.returned()->Err_0->JS_0 is Execution,
            r.returned()->Err_0->JS_0->Execution_0@ == not_called_message(),
    {
        V8FunctionCallBackVariadic {
            ctx,
            args: V8VariadicArgsInternal::from_values(args),
            ret: Err(not_called()),
        }
    }

    /// The context of the call.
    pub fn context(&mut self) -> (c: C)
        ensures
            c == old(self).context_of(),
            *final(self) == *old(self),
    {
        self.ctx
    }

    /// The arguments of the call.
    pub fn args(&mut self) -> (a: &V8VariadicArgsInternal<V>)
        ensures
            *a == old(self).args_of(),
            *final(self) == *old(self),
    {
        &self.args
    }

    /// The number of arguments.
    pub fn len(&self) -> (n: usize)
        ensures
            n == self.args_of().values().len(),
    {
        self.args.len()
    }

    /// Sets the value the call returns.
    pub fn ret(&mut self, value: V)
        ensures
            final(self).returned() == Ok::<V, Error>(value),
            final(self).context_of() == old(self).context_of(),
            final(self).args_of() == old(self).args_of(),
    {
        self.ret = Ok(value);
    }

    /// What the call returned, once the callback is done with it.
    pub fn into_returned(self) -> (r: Result<V, Error>)
        ensures
            r == self.returned(),
    {
        self.ret
    }
}


/// One call of `next` on arguments with the given values, `read` of which were read: the value
/// handed out and how many are read afterwards.
pub open spec fn next_step<V>(values: Seq<V>, read: int) -> (Option<V>, int) {
    if 0 <= read < values.len() {
        (Some(values[read]), read + 1)
    } else {
        (None, read)
    }
}

/// What `k` calls of `next` hand out, one after another, starting with `read` values read.
pub open spec fn reads<V>(values: Seq<V>, read: int, k: nat) -> Seq<Option<V>>
    decreases k,
{
    if k == 0 {
        Seq::empty()
    } else {
        let (r, read2) = next_step(values, read);
        seq![r] + reads(values, read2, (k - 1) as nat)
    }
}

proof fn lemma_reads_past_end<V>(values: Seq<V>, m: nat)
    ensures
        reads(values, values.len() as int, m) == Seq::new(m, |i: int| None::<V>),
    decreases m,
{
    if m > 0 {
        lemma_reads_past_end(values, (m - 1) as nat);
        assert(reads(values, values.len() as int, m) =~= Seq::new(m, |i: int| None::<V>));
    }
}

proof fn lemma_reads_from<V>(values: Seq<V>, i: int, m: nat)
    requires
        0 <= i <= values.len(),
    ensures
        reads(values, i, (values.len() - i + m) as nat) == values.subrange(i, values.len() as int).map_values(
            |v: V| Some(v),
        ) + Seq::new(m, |j: int| None::<V>),
    decreases values.len() - i,
{
    if i == values.len() {
        lemma_reads_past_end(values, m);
        assert(values.subrange(i, values.len() as int).map_values(|v: V| Some(v)) =~= Seq::<Option<V>>::empty());
        assert(Seq::<Option<V>>::empty() + Seq::new(m, |j: int| None::<V>) =~= Seq::new(m, |j: int| None::<V>));
    } else {
        lemma_reads_from(values, i + 1, m);
        let rest = values.subrange(i + 1, values.len() as int).map_values(|v: V| Some(v)) + Seq::new(
            m,
            |j: int| None::<V>,
        );
        assert(values.subrange(i, values.len() as int).map_values(|v: V| Some(v)) + Seq::new(
            m,
            |j: int| None::<V>,
        ) =~= seq![Some(values[i])] + rest);
    }
}

/// Reading arguments one after another from the start hands out every value once, in order,
/// and nothing after the last: `n + m` calls on `n` values give the values, then `m` times
/// `None`.
pub proof fn law_args_read_in_order<V>(values: Seq<V>, m: nat)
    ensures
        reads(values, 0, values.len() + m) == values.map_values(|v: V| Some(v)) + Seq::new(
            m,
            |j: int| None::<V>,
        ),
{
    lemma_reads_from(values, 0, m);
    assert(values.subrange(0, values.len() as int) =~= values);
}

/// Arguments built from the values of some context's arguments hold the same values: tagging
/// values with a context and reading them back gives the values unchanged.
pub proof fn law_tagging_keeps_values<C, V>(s: Seq<V>, ctx: C)
    ensures
        values_of(tagged(s, ctx)) == s,
        tagged(s, ctx).len() == s.len(),
        forall|i: int| 0 <= i < s.len() ==> #[trigger] tagged(s, ctx)[i] == (V8Value { context: ctx, value: s[i] }),
{
    assert(values_of(tagged(s, ctx)) =~= s);
}

} // verus!
