//! A store that keeps the isolates, handle scopes and context scopes of the V8 contexts, each
//! under the id of its context, with a count of the references handed out to it.
use vstd::prelude::*;

verus! {

/// One stored value, with the id of its context, the number of references to it in use, and
/// whether it is to be dropped once it is no longer used.
#[derive(Debug)]
pub struct Inner<T> {
    pub id: usize,
    pub ref_count: usize,
    pub drop_next: bool,
    pub data: T,
}

impl<T> Inner<T> {
    pub fn new(id: usize, data: T) -> (r: Inner<T>)
        ensures
            r == (Inner { id, ref_count: 0, drop_next: false, data }),
    {
        Inner { id, ref_count: 0, drop_next: false, data }
    }
}

/// The position of the first entry with the given id, or -1 when there is none.
pub open spec fn first_index<T>(s: Seq<Inner<T>>, id: usize) -> int
    decreases s.len(),
{
    if s.len() == 0 {
        -1
    } else {
        let k = first_index(s.drop_last(), id);
        if k >= 0 {
            k
        } else if s.last().id == id {
            s.len() - 1
        } else {
            -1
        }
    }
}

pub proof fn lemma_first_index<T>(s: Seq<Inner<T>>, id: usize)
    ensures
        -1 <= first_index(s, id) < s.len(),
        first_index(s, id) == -1 <==> forall|j: int| 0 <= j < s.len() ==> #[trigger] s[j].id != id,
        first_index(s, id) >= 0 ==> s[first_index(s, id)].id == id,
        forall|j: int| 0 <= j < first_index(s, id) ==> #[trigger] s[j].id != id,
    decreases s.len(),
{
    if s.len() > 0 {
        lemma_first_index(s.drop_last(), id);
        assert forall|j: int| 0 <= j < s.len() - 1 implies s.drop_last()[j] == #[trigger] s[j] by {}
    }
}

/// Entries with the given id are only ever looked at through the first of them.
pub proof fn lemma_first_index_of_prefix<T>(s: Seq<Inner<T>>, id: usize, i: int)
    requires
        0 <= i < s.len(),
        s[i].id == id,
        forall|j: int| 0 <= j < i ==> #[trigger] s[j].id != id,
    ensures
        first_index(s, id) == i,
{
    lemma_first_index(s, id);
    let k = first_index(s, id);
    if k < i {
        assert(s[k].id != id);
    }
}

/// The data stored under an id: that of the first entry with the id.
pub open spec fn lookup<T>(s: Seq<Inner<T>>, id: usize) -> Option<T> {
    let k = first_index(s, id);
    if k >= 0 {
        Some(s[k].data)
    } else {
        None
    }
}

/// The list after a value is stored under an id.
pub open spec fn inserted<T>(s: Seq<Inner<T>>, id: usize, data: T) -> Seq<Inner<T>> {
    s.push(Inner { id, ref_count: 0, drop_next: false, data })
}

/// The list after the reference count of the first entry with the id is raised (or lowered).
pub open spec fn counted<T>(s: Seq<Inner<T>>, id: usize, increase: bool) -> Seq<Inner<T>> {
    let k = first_index(s, id);
    if k >= 0 {
        s.update(
            k,
            Inner {
                ref_count: if increase {
                    (s[k].ref_count + 1) as usize
                } else {
                    (s[k].ref_count - 1) as usize
                },
                ..s[k]
            },
        )
    } else {
        s
    }
}

/// Whether the count of the first entry with the id may be changed without overflow.
pub open spec fn count_can_change<T>(s: Seq<Inner<T>>, id: usize, increase: bool) -> bool {
    let k = first_index(s, id);
    k >= 0 ==> if increase {
        s[k].ref_count < usize::MAX
    } else {
        s[k].ref_count > 0
    }
}

/// Whether the first entry with the id is in use.
pub open spec fn in_use<T>(s: Seq<Inner<T>>, id: usize) -> bool {
    let k = first_index(s, id);
    k >= 0 && s[k].ref_count != 0
}

/// The list after `drop`: the first entry with the id is removed, or, when `keep` is set
/// because something of the context is still in use, marked to be dropped next.
pub open spec fn dropped<T>(s: Seq<Inner<T>>, id: usize, keep: bool) -> Seq<Inner<T>> {
    let k = first_index(s, id);
    if k < 0 {
        s
    } else if keep {
        s.update(k, Inner { drop_next: true, ..s[k] })
    } else {
        s.remove(k)
    }
}

/// The isolates, handle scopes and context scopes of the V8 contexts.
pub struct Store<I, H, C> {
    isolates: Vec<Inner<I>>,
    handle_scopes: Vec<Inner<H>>,
    context_scopes: Vec<Inner<C>>,
}

fn find<T>(s: &Vec<Inner<T>>, id: usize) -> (r: Option<usize>)
    ensures
        match r {
            Some(i) => i < s.len() && i == first_index(s@, id),
            None => first_index(s@, id) == -1,
        },
{
    proof {
        lemma_first_index(s@, id);
    }
    let mut i: usize = 0;
    while i < s.len()
        invariant
            i <= s.len(),
            forall|j: int| 0 <= j < i ==> #[trigger] s@[j].id != id,
        decreases s.len() - i,
    {
        if s[i].id == id {
            proof {
                lemma_first_index_of_prefix(s@, id, i as int);
            }
            return Some(i);
        }
        i = i + 1;
    }
    None
}

fn change_count<T>(s: &mut Vec<Inner<T>>, id: usize, increase: bool)
    requires
        count_can_change(old(s)@, id, increase),
    ensures
        final(s)@ == counted(old(s)@, id, increase),
{
    proof {
        lemma_first_index(s@, id);
    }
    match find(s, id) {
        Some(i) => {
            let mut inner = s.remove(i);
            if increase {
                inner.ref_count = inner.ref_count + 1;
            } else {
                inner.ref_count = inner.ref_count - 1;
            }
            s.insert(i, inner);
            proof {
                assert(s@ =~= counted(old(s)@, id, increase));
            }
        },
        None => {},
    }
}

impl<I, H, C> Store<I, H, C> {
    pub closed spec fn isolates(&self) -> Seq<Inner<I>> {
        self.isolates@
    }

    pub closed spec fn handle_scopes(&self) -> Seq<Inner<H>> {
        self.handle_scopes@
    }

    pub closed spec fn context_scopes(&self) -> Seq<Inner<C>> {
        self.context_scopes@
    }

    /// An empty store.
    pub fn new() -> (s: Self)
        ensures
            s.isolates() == Seq::<Inner<I>>::empty(),
            s.handle_scopes() == Seq::<Inner<H>>::empty(),
            s.context_scopes() == Seq::<Inner<C>>::empty(),
    {
        Store { isolates: Vec::new(), handle_scopes: Vec::new(), context_scopes: Vec::new() }
    }

    /// Stores an isolate under the id of its context.
    pub fn insert_isolate(&mut self, id: usize, isolate: I)
        ensures
            final(self).isolates() == inserted(old(self).isolates(), id, isolate),
            final(self).handle_scopes() == old(self).handle_scopes(),
            final(self).context_scopes() == old(self).context_scopes(),
    {
        self.isolates.push(Inner { id, ref_count: 0, drop_next: false, data: isolate });
    }

    /// Stores a handle scope under the id of its context.
    pub fn insert_handle_scope(&mut self, id: usize, handle_scope: H)
        ensures
            final(self).handle_scopes() == inserted(old(self).handle_scopes(), id, handle_scope),
            final(self).isolates() == old(self).isolates(),
            final(self).context_scopes() == old(self).context_scopes(),
    {
        self.handle_scopes.push(Inner::new(id, handle_scope));
    }

    /// Stores a context scope under the id of its context.
    pub fn insert_context_scope(&mut self, id: usize, context_scope: C)
        ensures
            final(self).context_scopes() == inserted(old(self).context_scopes(), id, context_scope),
            final(self).isolates() == old(self).isolates(),
            final(self).handle_scopes() == old(self).handle_scopes(),
    {
        self.context_scopes.push(Inner::new(id, context_scope));
    }

    /// The isolate stored under the id, if any, to be used in place.
    pub fn get_isolate(&mut self, id: usize) -> (r: Option<&mut I>)
        ensures
            match lookup(old(self).isolates(), id) {
                Some(d) => r is Some && *r.unwrap() == d,
                None => r is None,
            },
            r is Some ==> final(self).isolates() == old(self).isolates().update(
                first_index(old(self).isolates(), id),
                Inner { data: *final(r.unwrap()), ..old(self).isolates()[first_index(old(self).isolates(), id)] },
            ),
            r is None ==> final(self).isolates() == old(self).isolates(),
            final(self).handle_scopes() == old(self).handle_scopes(),
            final(self).context_scopes() == old(self).context_scopes(),
    {
        match find(&self.isolates, id) {
            Some(i) => Some(&mut self.isolates[i].data),
            None => None,
        }
    }

    /// The handle scope stored under the id, if any, to be used in place.
    pub fn get_handle_scope(&mut self, id: usize) -> (r: Option<&mut H>)
        ensures
            match lookup(old(self).handle_scopes(), id) {
                Some(d) => r is Some && *r.unwrap() == d,
                None => r is None,
            },
            r is Some ==> final(self).handle_scopes() == old(self).handle_scopes().update(
                first_index(old(self).handle_scopes(), id),
                Inner { data: *final(r.unwrap()), ..old(self).handle_scopes()[first_index(old(self).handle_scopes(), id)] },
            ),
            r is None ==> final(self).handle_scopes() == old(self).handle_scopes(),
            final(self).isolates() == old(self).isolates(),
            final(self).context_scopes() == old(self).context_scopes(),
    {
        match find(&self.handle_scopes, id) {
            Some(i) => Some(&mut self.handle_scopes[i].data),
            None => None,
        }
    }

    /// The context scope stored under the id, if any, to be used in place.
    pub fn get_context_scope(&mut self, id: usize) -> (r: Option<&mut C>)
        ensures
            match lookup(old(self).context_scopes(), id) {
                Some(d) => r is Some && *r.unwrap() == d,
                None => r is None,
            },
            r is Some ==> final(self).context_scopes() == old(self).context_scopes().update(
                first_index(old(self).context_scopes(), id),
                Inner { data: *final(r.unwrap()), ..old(self).context_scopes()[first_index(old(self).context_scopes(), id)] },
            ),
            r is None ==> final(self).context_scopes() == old(self).context_scopes(),
            final(self).isolates() == old(self).isolates(),
            final(self).handle_scopes() == old(self).handle_scopes(),
    {
        match find(&self.context_scopes, id) {
            Some(i) => Some(&mut self.context_scopes[i].data),
            None => None,
        }
    }

    /// Stores a isolate and hands out, to be used in place, what is now stored under its id:
    /// the first isolate ever stored under that id.
    pub fn isolate(&mut self, id: usize, isolate: I) -> (r: &mut I)
        ensures
            lookup(inserted(old(self).isolates(), id, isolate), id) == Some(*r),
            final(self).isolates() == inserted(old(self).isolates(), id, isolate).update(
                first_index(inserted(old(self).isolates(), id, isolate), id),
                Inner {
                    data: *final(r),
                    ..inserted(old(self).isolates(), id, isolate)[first_index(
                        inserted(old(self).isolates(), id, isolate),
                        id,
                    )]
                },
            ),
            final(self).handle_scopes() == old(self).handle_scopes(),
            final(self).context_scopes() == old(self).context_scopes(),
    {
        self.insert_isolate(id, isolate);
        proof {
            lemma_lookup_after_insert(old(self).isolates(), id, isolate);
        }
        let r = self.get_isolate(id);
        r.unwrap()
    }

    /// Stores a handle scope and hands out, to be used in place, what is now stored under its id:
    /// the first handle scope ever stored under that id.
    pub fn handle_scope(&mut self, id: usize, handle_scope: H) -> (r: &mut H)
        ensures
            lookup(inserted(old(self).handle_scopes(), id, handle_scope), id) == Some(*r),
            final(self).handle_scopes() == inserted(old(self).handle_scopes(), id, handle_scope).update(
                first_index(inserted(old(self).handle_scopes(), id, handle_scope), id),
                Inner {
                    data: *final(r),
                    ..inserted(old(self).handle_scopes(), id, handle_scope)[first_index(
                        inserted(old(self).handle_scopes(), id, handle_scope),
                        id,
                    )]
                },
            ),
            final(self).isolates() == old(self).isolates(),
            final(self).context_scopes() == old(self).context_scopes(),
    {
        self.insert_handle_scope(id, handle_scope);
        proof {
            lemma_lookup_after_insert(old(self).handle_scopes(), id, handle_scope);
        }
        let r = self.get_handle_scope(id);
        r.unwrap()
    }

    /// Stores a context scope and hands out, to be used in place, what is now stored under its id:
    /// the first context scope ever stored under that id.
    pub fn context_scope(&mut self, id: usize, context_scope: C) -> (r: &mut C)
        ensures
            lookup(inserted(old(self).context_scopes(), id, context_scope), id) == Some(*r),
            final(self).context_scopes() == inserted(old(self).context_scopes(), id, context_scope).update(
                first_index(inserted(old(self).context_scopes(), id, context_scope), id),
                Inner {
                    data: *final(r),
                    ..inserted(old(self).context_scopes(), id, context_scope)[first_index(
                        inserted(old(self).context_scopes(), id, context_scope),
                        id,
                    )]
                },
            ),
            final(self).isolates() == old(self).isolates(),
            final(self).handle_scopes() == old(self).handle_scopes(),
    {
        self.insert_context_scope(id, context_scope);
        proof {
            lemma_lookup_after_insert(old(self).context_scopes(), id, context_scope);
        }
        let r = self.get_context_scope(id);
        r.unwrap()
    }

    /// Drops what is stored under the id, in the order context scope, handle scope, isolate.
    /// When any of the three is still in use, nothing is removed and each is marked to be
    /// dropped next instead.
    pub fn drop(&mut self, id: usize)
        ensures
            ({
                let keep = in_use(old(self).context_scopes(), id) || in_use(
                    old(self).handle_scopes(),
                    id,
                ) || in_use(old(self).isolates(), id);
                &&& final(self).context_scopes() == dropped(old(self).context_scopes(), id, keep)
                &&& final(self).handle_scopes() == dropped(old(self).handle_scopes(), id, keep)
                &&& final(self).isolates() == dropped(old(self).isolates(), id, keep)
            }),
    {
        proof {
            lemma_first_index(self.context_scopes@, id);
            lemma_first_index(self.handle_scopes@, id);
            lemma_first_index(self.isolates@, id);
        }
        let context_scope = find(&self.context_scopes, id);
        let handle_scope = find(&self.handle_scopes, id);
        let isolate = find(&self.isolates, id);
        let mut dont_drop = false;
        if let Some(i) = context_scope {
            if self.context_scopes[i].ref_count != 0 {
                dont_drop = true;
            }
        }
        if let Some(i) = handle_scope {
            if self.handle_scopes[i].ref_count != 0 {
                dont_drop = true;
            }
        }
        if let Some(i) = isolate {
            if self.isolates[i].ref_count != 0 {
                dont_drop = true;
            }
        }
        if !dont_drop {
            if let Some(i) = context_scope {
                self.context_scopes.remove(i);
            }
            if let Some(i) = handle_scope {
                self.handle_scopes.remove(i);
            }
            if let Some(i) = isolate {
                self.isolates.remove(i);
            }
        } else {
            if let Some(i) = context_scope {
                let mut inner = self.context_scopes.remove(i);
                inner.drop_next = true;
                self.context_scopes.insert(i, inner);
            }
            if let Some(i) = handle_scope {
                let mut inner = self.handle_scopes.remove(i);
                inner.drop_next = true;
                self.handle_scopes.insert(i, inner);
            }
            if let Some(i) = isolate {
                let mut inner = self.isolates.remove(i);
                inner.drop_next = true;
                self.isolates.insert(i, inner);
            }
        }
        proof {
            let keep = in_use(old(self).context_scopes(), id) || in_use(old(self).handle_scopes(), id)
                || in_use(old(self).isolates(), id);
            assert(dont_drop == keep);
            assert(self.context_scopes@ =~= dropped(old(self).context_scopes(), id, keep));
            assert(self.handle_scopes@ =~= dropped(old(self).handle_scopes(), id, keep));
            assert(self.isolates@ =~= dropped(old(self).isolates(), id, keep));
        }
    }

    fn change_context_scope_count(&mut self, id: usize, increase: bool)
        requires
            count_can_change(old(self).context_scopes(), id, increase),
        ensures
            final(self).context_scopes() == counted(old(self).context_scopes(), id, increase),
            final(self).isolates() == old(self).isolates(),
            final(self).handle_scopes() == old(self).handle_scopes(),
    {
        change_count(&mut self.context_scopes, id, increase);
    }

    fn change_handle_scope_count(&mut self, id: usize)
        requires
            count_can_change(old(self).handle_scopes(), id, false),
        ensures
            final(self).handle_scopes() == counted(old(self).handle_scopes(), id, false),
            final(self).isolates() == old(self).isolates(),
            final(self).context_scopes() == old(self).context_scopes(),
    {
        change_count(&mut self.handle_scopes, id, false);
    }

    fn change_isolate_count(&mut self, id: usize)
        requires
            count_can_change(old(self).isolates(), id, false),
        ensures
            final(self).isolates() == counted(old(self).isolates(), id, false),
            final(self).handle_scopes() == old(self).handle_scopes(),
            final(self).context_scopes() == old(self).context_scopes(),
    {
        change_count(&mut self.isolates, id, false);
    }

    /// Records one more reference to the context scope of the id.
    pub fn raise_context_scope_count(&mut self, id: usize)
        requires
            count_can_change(old(self).context_scopes(), id, true),
        ensures
            final(self).context_scopes() == counted(old(self).context_scopes(), id, true),
            final(self).isolates() == old(self).isolates(),
            final(self).handle_scopes() == old(self).handle_scopes(),
    {
        self.change_context_scope_count(id, true);
    }

    /// Records one reference fewer to the context scope of the id.
    pub fn lower_context_scope_count(&mut self, id: usize)
        requires
            count_can_change(old(self).context_scopes(), id, false),
        ensures
            final(self).context_scopes() == counted(old(self).context_scopes(), id, false),
            final(self).isolates() == old(self).isolates(),
            final(self).handle_scopes() == old(self).handle_scopes(),
    {
        self.change_context_scope_count(id, false);
    }

    /// Meant to record one more reference to the handle scope of the id; it lowers the count,
    /// as the handle scope count is only ever lowered.
    pub fn raise_handle_scope_count(&mut self, id: usize)
        requires
            count_can_change(old(self).handle_scopes(), id, false),
        ensures
            final(self).handle_scopes() == counted(old(self).handle_scopes(), id, false),
            final(self).isolates() == old(self).isolates(),
            final(self).context_scopes() == old(self).context_scopes(),
    {
        self.change_handle_scope_count(id);
    }

    /// Records one reference fewer to the handle scope of the id.
    pub fn lower_handle_scope_count(&mut self, id: usize)
        requires
            count_can_change(old(self).handle_scopes(), id, false),
        ensures
            final(self).handle_scopes() == counted(old(self).handle_scopes(), id, false),
            final(self).isolates() == old(self).isolates(),
            final(self).context_scopes() == old(self).context_scopes(),
    {
        self.change_handle_scope_count(id);
    }

    /// Meant to record one more reference to the isolate of the id; it lowers the count, as
    /// the isolate count is only ever lowered.
    pub fn raise_isolate_count(&mut self, id: usize)
        requires
            count_can_change(old(self).isolates(), id, false),
        ensures
            final(self).isolates() == counted(old(self).isolates(), id, false),
            final(self).handle_scopes() == old(self).handle_scopes(),
            final(self).context_scopes() == old(self).context_scopes(),
    {
        self.change_isolate_count(id);
    }

    /// Records one reference fewer to the isolate of the id.
    pub fn lower_isolate_count(&mut self, id: usize)
        requires
            count_can_change(old(self).isolates(), id, false),
        ensures
            final(self).isolates() == counted(old(self).isolates(), id, false),
            final(self).handle_scopes() == old(self).handle_scopes(),
            final(self).context_scopes() == old(self).context_scopes(),
    {
        self.change_isolate_count(id);
    }
}

impl<I, H, C> Default for Store<I, H, C> {
    /// An empty store.
    fn default() -> (s: Self)
        ensures
            s.isolates() == Seq::<Inner<I>>::empty(),
            s.handle_scopes() == Seq::<Inner<H>>::empty(),
            s.context_scopes() == Seq::<Inner<C>>::empty(),
    {
        Self::new()
    }
}

/// After storing a value under an id, what is found under the id is what was stored first
/// under it: the new value when the id was not used yet, else the earlier one.
pub proof fn lemma_lookup_after_insert<T>(s: Seq<Inner<T>>, id: usize, data: T)
    ensures
        lookup(inserted(s, id, data), id) == match lookup(s, id) {
            Some(d) => Some(d),
            None => Some(data),
        },
{
    let t = inserted(s, id, data);
    assert(t.drop_last() =~= s);
    lemma_first_index(s, id);
}


/// Storing a value under a fresh id makes exactly that value found under the id, and leaves
/// what is found under every other id as it was.
pub proof fn law_insert_then_lookup<T>(s: Seq<Inner<T>>, id: usize, data: T, other: usize)
    requires
        lookup(s, id) is None,
        other != id,
    ensures
        lookup(inserted(s, id, data), id) == Some(data),
        lookup(inserted(s, other, data), other) is Some,
        lookup(inserted(s, id, data), other) == lookup(s, other),
{
    lemma_lookup_after_insert(s, id, data);
    lemma_lookup_after_insert(s, other, data);
    let t = inserted(s, id, data);
    assert(t.drop_last() =~= s);
    lemma_first_index(s, other);
}

/// Raising a reference count and lowering it again leaves the list as it was.
pub proof fn law_raise_then_lower_restores<T>(s: Seq<Inner<T>>, id: usize)
    requires
        count_can_change(s, id, true),
    ensures
        count_can_change(counted(s, id, true), id, false),
        counted(counted(s, id, true), id, false) == s,
{
    lemma_first_index(s, id);
    let t = counted(s, id, true);
    lemma_first_index_stable(s, id, id, true);
    if first_index(s, id) >= 0 {
        assert(counted(t, id, false) =~= s);
    }
}

/// Changing a reference count never moves an entry and never changes what is stored.
pub proof fn lemma_first_index_stable<T>(s: Seq<Inner<T>>, id: usize, x: usize, increase: bool)
    ensures
        first_index(counted(s, id, increase), x) == first_index(s, x),
{
    lemma_first_index(s, id);
    lemma_first_index(s, x);
    let t = counted(s, id, increase);
    lemma_first_index(t, x);
    assert forall|j: int| 0 <= j < s.len() implies #[trigger] t[j].id == s[j].id by {}
    let a = first_index(s, x);
    let b = first_index(t, x);
    if a >= 0 && b >= 0 {
        if a < b {
            assert(t[a].id == x);
        } else if b < a {
            assert(s[b].id == x);
        }
    } else if a >= 0 {
        assert(t[a].id == x);
    } else if b >= 0 {
        assert(s[b].id == x);
    }
}

/// Changing a reference count never changes what is found under any id.
pub proof fn law_counting_keeps_data<T>(s: Seq<Inner<T>>, id: usize, x: usize, increase: bool)
    ensures
        lookup(counted(s, id, increase), x) == lookup(s, x),
        counted(s, id, increase).len() == s.len(),
{
    lemma_first_index_stable(s, id, x, increase);
    lemma_first_index(s, id);
    lemma_first_index(s, x);
}

/// `drop` removes nothing that is in use: while any part of a context is in use, every list
/// keeps its length and every stored value; otherwise exactly the first entry with the id,
/// if any, leaves each list, and the other entries keep their order.
pub proof fn law_drop_keeps_what_is_in_use<T>(s: Seq<Inner<T>>, id: usize, keep: bool)
    requires
        in_use(s, id) ==> keep,
    ensures
        keep ==> dropped(s, id, keep).len() == s.len(),
        keep ==> forall|i: int|
            0 <= i < s.len() ==> (#[trigger] dropped(s, id, keep)[i]).data == s[i].data
                && dropped(s, id, keep)[i].ref_count == s[i].ref_count,
        !keep && first_index(s, id) >= 0 ==> {
            &&& s[first_index(s, id)].ref_count == 0
            &&& dropped(s, id, keep) == s.remove(first_index(s, id))
        },
        first_index(s, id) < 0 ==> dropped(s, id, keep) == s,
{
    lemma_first_index(s, id);
}


/// Raising a count adds exactly one reference to the first entry with the id, and lowering it
/// takes exactly one away; every other entry, and every other field, stays as it was. A raised
/// entry is in use.
pub proof fn law_count_changes_by_one<T>(s: Seq<Inner<T>>, id: usize, increase: bool)
    requires
        count_can_change(s, id, increase),
    ensures
        counted(s, id, increase).len() == s.len(),
        forall|i: int|
            0 <= i < s.len() && i != first_index(s, id) ==> #[trigger] counted(s, id, increase)[i]
                == s[i],
        first_index(s, id) >= 0 ==> {
            let k = first_index(s, id);
            let e = counted(s, id, increase)[k];
            &&& e.id == s[k].id && e.data == s[k].data && e.drop_next == s[k].drop_next
            &&& e.ref_count == if increase {
                s[k].ref_count + 1
            } else {
                s[k].ref_count - 1
            }
        },
        increase && lookup(s, id) is Some ==> in_use(counted(s, id, increase), id),
{
    lemma_first_index(s, id);
    lemma_first_index_stable(s, id, id, increase);
}

/// Dropping a context that is still in use only marks its first entry to be dropped next,
/// keeping its id, data and count, and changes no other entry.
pub proof fn law_drop_in_use_marks<T>(s: Seq<Inner<T>>, id: usize)
    requires
        first_index(s, id) >= 0,
    ensures
        dropped(s, id, true).len() == s.len(),
        dropped(s, id, true)[first_index(s, id)] == (Inner {
            drop_next: true,
            ..s[first_index(s, id)]
        }),
        forall|i: int|
            0 <= i < s.len() && i != first_index(s, id) ==> #[trigger] dropped(s, id, true)[i]
                == s[i],
        lookup(dropped(s, id, true), id) == lookup(s, id),
{
    lemma_first_index(s, id);
    let t = dropped(s, id, true);
    let k = first_index(s, id);
    lemma_first_index_of_prefix(t, id, k);
}

} // verus!
