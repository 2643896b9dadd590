//! A V8 context, whose isolate, handle scope and context scope live in the store under its id.
use vstd::prelude::*;

use crate::js::v8::context_store::{
    count_can_change, counted, dropped, first_index, in_use, inserted, law_counting_keeps_data,
    lemma_first_index_stable, lookup, Inner, Store,
};

verus! {

/// `rand::random` from the rand crate: a random id. What it returns is left unsaid: it comes
/// from the thread's random number generator, which panics if the operating system cannot
/// seed it.
#[verifier::external_body]
fn random_id() -> (id: usize) {
    rand::random::<usize>()
}

/// A V8 context: its isolate, handle scope and context scope are kept in a store under its id.
pub struct V8Context {
    id: usize,
}

impl V8Context {
    pub closed spec fn id_of(&self) -> usize {
        self.id
    }

    /// A new context under a random id, whose isolate, handle scope and context scope are
    /// stored under that id.
    pub fn new<I, H, C>(store: &mut Store<I, H, C>, isolate: I, handle_scope: H, context_scope: C) -> (c: V8Context)
        ensures
            final(store).isolates() == inserted(old(store).isolates(), c.id_of(), isolate),
            final(store).handle_scopes() == inserted(old(store).handle_scopes(), c.id_of(), handle_scope),
            final(store).context_scopes() == inserted(
                old(store).context_scopes(),
                c.id_of(),
                context_scope,
            ),
    {
        let id = random_id();
        store.insert_isolate(id, isolate);
        store.insert_handle_scope(id, handle_scope);
        store.insert_context_scope(id, context_scope);
        V8Context { id }
    }

    /// The id of the context.
    pub fn id(&self) -> (i: usize)
        ensures
            i == self.id_of(),
    {
        self.id
    }

    /// The context scope of the context, to be used in place. Handing it out ends with one
    /// reference fewer recorded on it: the guard that holds the scope lowers the count when it
    /// goes, though nothing raised it for this use.
    pub fn scope<'a, I, H, C>(&self, store: &'a mut Store<I, H, C>) -> (s: &'a mut C)
        requires
            lookup(old(store).context_scopes(), self.id_of()) is Some,
            count_can_change(old(store).context_scopes(), self.id_of(), false),
        ensures
            *s == lookup(old(store).context_scopes(), self.id_of()).unwrap(),
            final(store).context_scopes() == counted(
                old(store).context_scopes(),
                self.id_of(),
                false,
            ).update(
                first_index(old(store).context_scopes(), self.id_of()),
                Inner {
                    data: *final(s),
                    ..counted(old(store).context_scopes(), self.id_of(), false)[first_index(
                        old(store).context_scopes(),
                        self.id_of(),
                    )]
                },
            ),
            final(store).isolates() == old(store).isolates(),
            final(store).handle_scopes() == old(store).handle_scopes(),
    {
        store.lower_context_scope_count(self.id);
        proof {
            law_counting_keeps_data(old(store).context_scopes(), self.id, self.id, false);
            lemma_first_index_stable(old(store).context_scopes(), self.id, self.id, false);
        }
        store.get_context_scope(self.id).unwrap()
    }

    /// Ends the context: what the store keeps under its id is dropped as `Store::drop` says.
    pub fn drop<I, H, C>(self, store: &mut Store<I, H, C>)
        ensures
            ({
                let id = self.id_of();
                let keep = in_use(old(store).context_scopes(), id)
                    || in_use(old(store).handle_scopes(), id)
                    || in_use(old(store).isolates(), id);
                &&& final(store).context_scopes() == dropped(
                    old(store).context_scopes(),
                    id,
                    keep,
                )
                &&& final(store).handle_scopes() == dropped(
                    old(store).handle_scopes(),
                    id,
                    keep,
                )
                &&& final(store).isolates() == dropped(old(store).isolates(), id, keep)
            }),
    {
        store.drop(self.id);
    }
}

} // verus!
