//! Non-owning registry with opaque, never-reused handles for native callbacks.
//!
//! Native callbacks carry a plain integer handle instead of a pointer.  The
//! registry maps handles to weak references, so a handle never keeps a
//! window alive, and handles are issued in strictly increasing order, so a
//! handle that was removed can never resolve to a window registered later.

use crate::weak_ref::rc_downgrade;
use crate::weak_ref::weak_strong_count;
use crate::weak_ref::weak_upgrade;
use crate::weak_ref::WeakRef;
use std::collections::BTreeMap;
use std::rc::Rc;
use vstd::prelude::*;
use vstd::std_specs::iter::IteratorSpec;
use vstd::std_specs::cmp::OrdSpec;

verus! {

/// The abstract state of a registry: the last handle issued (0 before any)
/// and, for each registered handle, the window registered under it.
pub struct RegistryModel<T> {
    pub last: usize,
    pub windows: Map<usize, T>,
}

/// One change made to a registry: the registration of a window, or the
/// removal of a handle.
pub enum RegistryEdit<T> {
    Register(T),
    Remove(usize),
}

impl<T> RegistryModel<T> {
    /// The handles currently registered.
    pub open spec fn handles(self) -> Set<usize> {
        self.windows.dom()
    }

    /// Every registered handle was issued: it lies in `1..=last`.
    pub open spec fn wf(self) -> bool {
        &&& self.windows.dom().finite()
        &&& forall|h: usize| #[trigger] self.windows.contains_key(h) ==> 1 <= h <= self.last
    }

    /// Whether another handle can be issued.
    pub open spec fn can_issue(self) -> bool {
        self.last < usize::MAX
    }

    /// The handle a successful registration returns.
    pub open spec fn issued(self) -> usize {
        (self.last + 1) as usize
    }

    /// The state after a successful registration of `window`: the next
    /// handle is issued and registered for it.
    pub open spec fn registered(self, window: T) -> RegistryModel<T> {
        RegistryModel { last: self.issued(), windows: self.windows.insert(self.issued(), window) }
    }

    /// The state after `id` is removed.
    pub open spec fn removed(self, id: usize) -> RegistryModel<T> {
        RegistryModel { last: self.last, windows: self.windows.remove(id) }
    }

    /// The state after one edit; a registration once the handle space is
    /// exhausted changes nothing.
    pub open spec fn edited(self, e: RegistryEdit<T>) -> RegistryModel<T> {
        match e {
            RegistryEdit::Register(w) => if self.can_issue() {
                self.registered(w)
            } else {
                self
            },
            RegistryEdit::Remove(id) => self.removed(id),
        }
    }

    /// The state after a sequence of edits, applied in order.
    pub open spec fn edited_all(self, es: Seq<RegistryEdit<T>>) -> RegistryModel<T>
        decreases es.len(),
    {
        if es.len() == 0 {
            self
        } else {
            self.edited(es[0]).edited_all(es.drop_first())
        }
    }
}

/// Maps opaque integer handles to weak references to windows.
#[verifier::reject_recursive_types(T)]
pub struct WindowRegistry<T> {
    next: usize,
    windows: BTreeMap<usize, WeakRef<T>>,
}

impl<T> View for WindowRegistry<T> {
    type V = RegistryModel<T>;

    /// Each registered handle maps to the window its weak reference was
    /// made from.
    closed spec fn view(&self) -> RegistryModel<T> {
        RegistryModel { last: self.next, windows: self.windows@.map_values(|w: WeakRef<T>| w.target()) }
    }
}

impl<T> Default for WindowRegistry<T> {
    fn default() -> (r: Self)
        ensures
            r@.last == 0,
            r@.windows == Map::<usize, T>::empty(),
            r@.wf(),
    {
        WindowRegistry::new()
    }
}

impl<T> WindowRegistry<T> {
    /// An empty registry.
    pub fn new() -> (r: Self)
        ensures
            r@.last == 0,
            r@.windows == Map::<usize, T>::empty(),
            r@.wf(),
    {
        let r = WindowRegistry { next: 0, windows: BTreeMap::new() };
        proof {
            assert(r@.windows =~= Map::<usize, T>::empty());
        }
        r
    }

    /// Registers a weak reference to `window` under a fresh handle and
    /// returns the handle, or `None` once the handle space is exhausted.
    pub fn register(&mut self, window: &Rc<T>) -> (r: Option<usize>)
        requires
            old(self)@.wf(),
        ensures
            final(self)@.wf(),
            old(self)@.can_issue() ==> {
                &&& r == Some(old(self)@.issued())
                &&& final(self)@ == old(self)@.registered(**window)
            },
            !old(self)@.can_issue() ==> {
                &&& r is None
                &&& final(self)@ == old(self)@
            },
    {
        if self.next == usize::MAX {
            return None;
        }
        self.next = self.next + 1;
        let weak = rc_downgrade(window);
        self.windows.insert(self.next, weak);
        proof {
            assert(self@.windows =~= old(self)@.windows.insert(self.next, **window));
        }
        Some(self.next)
    }

    /// Unregisters `id`; its handle is never issued again.
    pub fn remove(&mut self, id: usize)
        requires
            old(self)@.wf(),
        ensures
            final(self)@.wf(),
            final(self)@ == old(self)@.removed(id),
    {
        self.windows.remove(&id);
        proof {
            assert(self@.windows =~= old(self)@.windows.remove(id));
        }
    }

    /// The window registered under `id`, if it is registered and still alive.
    ///
    /// A result is always the window registered under `id`; whether that
    /// window is still alive depends on the strong references held outside
    /// the registry.
    pub fn get(&self, id: usize) -> (r: Option<Rc<T>>)
        ensures
            !self@.handles().contains(id) ==> r is None,
            r matches Some(rc) ==> self@.windows.contains_key(id) && *rc == self@.windows[id],
    {
        match self.windows.get(&id) {
            Some(weak) => weak_upgrade(weak),
            None => None,
        }
    }

    /// All registered handles in increasing order.
    pub fn ids(&self) -> (r: Vec<usize>)
        ensures
            r@.to_set() == self@.handles(),
            r@.len() == self@.handles().len(),
            strictly_increasing(r@),
    {
        let mut out: Vec<usize> = Vec::new();
        proof {
            lemma_keys_in_order(&self.windows);
            assert(self@.handles() =~= self.windows@.dom());
        }
        let keys = self.windows.keys();
        let ghost ks: Seq<&usize> = keys.remaining();
        for k in it: keys
            invariant
                it.seq() == ks,
                out@ == ks.unref().take(it.index()),
        {
            proof {
                assert(ks.unref().take(it.index() + 1) =~= ks.unref().take(it.index()).push(*k));
            }
            out.push(*k);
        }
        proof {
            assert(out@ =~= ks.unref());
            assert(out@.no_duplicates()) by {
                assert forall|i: int, j: int|
                    0 <= i < out@.len() && 0 <= j < out@.len() && i != j implies out@[i] != out@[j] by {
                    if i < j {
                        assert(*ks[i] < *ks[j]);
                    } else {
                        assert(*ks[j] < *ks[i]);
                    }
                }
            }
            out@.unique_seq_to_set();
        }
        out
    }

    /// The newest registered handle whose window is still alive.
    ///
    /// Every registered handle is probed for the number of strong
    /// references to its window, and the newest handle with one is chosen
    /// (`newest_alive`).
    pub fn latest(&self) -> (r: Option<usize>)
        ensures
            r matches Some(id) ==> self@.handles().contains(id),
            self@.handles().is_empty() ==> r is None,
    {
        let ids = self.ids();
        let mut counts: Vec<usize> = Vec::new();
        let mut i: usize = 0;
        while i < ids.len()
            invariant
                i <= ids@.len(),
                counts@.len() == i,
            decreases ids@.len() - i,
        {
            let count = match self.windows.get(&ids[i]) {
                Some(weak) => weak_strong_count(weak),
                None => 0,
            };
            counts.push(count);
            i = i + 1;
        }
        let r = newest_alive(&ids, &counts);
        proof {
            if r is Some {
                let k = choose|k: int| 0 <= k < ids@.len() && ids@[k] == r->0 && counts@[k] > 0;
                assert(ids@.to_set().contains(ids@[k]));
            }
            if self@.handles().is_empty() {
                assert(ids@.len() == 0);
            }
        }
        r
    }
}

/// The handle of the newest window that is alive: `ids` are handles in
/// increasing order and `counts` the numbers of strong references found for
/// them.  The result is the handle at the last position with a non-zero
/// count, or `None` when every count is zero.
pub fn newest_alive(ids: &Vec<usize>, counts: &Vec<usize>) -> (r: Option<usize>)
    requires
        ids@.len() == counts@.len(),
    ensures
        r matches Some(i) ==> exists|k: int|
            0 <= k < ids@.len() && ids@[k] == i && counts@[k] > 0 && forall|j: int| k < j < counts@.len() ==> counts@[j] == 0,
        r is None <==> forall|k: int| 0 <= k < counts@.len() ==> counts@[k] == 0,
        strictly_increasing(ids@) ==> (r matches Some(id) ==> forall|k: int|
            0 <= k < ids@.len() ==> (ids@[k] == id ==> counts@[k] > 0) && (ids@[k] > id ==> counts@[k] == 0)),
{
    let mut i: usize = counts.len();
    while i > 0
        invariant
            i <= counts@.len(),
            ids@.len() == counts@.len(),
            forall|j: int| i <= j < counts@.len() ==> counts@[j] == 0,
        decreases i,
    {
        i = i - 1;
        if counts[i] > 0 {
            assert(0 <= i < ids@.len() && ids@[i as int] == ids[i as int] && counts@[i as int] > 0);
            return Some(ids[i]);
        }
    }
    None
}

/// Handles are issued in strictly increasing order: a registration returns a
/// handle greater than every handle registered before it, and registers the
/// window under it.
pub proof fn lemma_issued_handle_is_fresh<T>(m: RegistryModel<T>, window: T)
    requires
        m.wf(),
        m.can_issue(),
    ensures
        forall|h: usize| #[trigger] m.handles().contains(h) ==> h < m.issued(),
        m.registered(window).wf(),
        m.registered(window).windows.contains_key(m.issued()),
        m.registered(window).windows[m.issued()] == window,
{
}

/// One edit keeps a registry well formed, never lowers the last handle
/// issued, and a registration that takes effect issues a handle that was
/// not registered.
proof fn lemma_edit_keeps_wf<T>(m: RegistryModel<T>, e: RegistryEdit<T>)
    requires
        m.wf(),
    ensures
        m.edited(e).wf(),
        m.last <= m.edited(e).last,
        forall|h: usize| h <= m.last ==> (#[trigger] m.edited(e).windows.contains_key(h) ==> m.windows.contains_key(h)),
{
    match e {
        RegistryEdit::Register(w) => {
            if m.can_issue() {
                lemma_issued_handle_is_fresh(m, w);
            }
        },
        RegistryEdit::Remove(id) => {},
    }
}

/// A handle resolves, for as long as it stays registered, to the window
/// registered under it: registrations, and removals of other handles, in
/// any number and order, leave it registered for the same window.
pub proof fn lemma_handle_keeps_its_window<T>(m: RegistryModel<T>, id: usize, es: Seq<RegistryEdit<T>>)
    requires
        m.wf(),
        m.windows.contains_key(id),
        forall|i: int| 0 <= i < es.len() ==> es[i] != RegistryEdit::<T>::Remove(id),
    ensures
        m.edited_all(es).wf(),
        m.edited_all(es).windows.contains_key(id),
        m.edited_all(es).windows[id] == m.windows[id],
    decreases es.len(),
{
    if es.len() > 0 {
        let n = m.edited(es[0]);
        lemma_edit_keeps_wf(m, es[0]);
        assert(es[0] != RegistryEdit::<T>::Remove(id));
        assert(n.windows.contains_key(id) && n.windows[id] == m.windows[id]);
        let rest = es.drop_first();
        assert forall|i: int| 0 <= i < rest.len() implies rest[i] != RegistryEdit::<T>::Remove(id) by {
            assert(rest[i] == es[i + 1]);
        }
        lemma_handle_keeps_its_window(n, id, rest);
    }
}

/// A handle that was issued and is no longer registered is never registered
/// again, whatever edits follow: a removed handle never resolves to a window
/// registered later.
pub proof fn lemma_removed_handle_never_returns<T>(m: RegistryModel<T>, id: usize, es: Seq<RegistryEdit<T>>)
    requires
        m.wf(),
        id <= m.last,
        !m.handles().contains(id),
    ensures
        m.edited_all(es).wf(),
        !m.edited_all(es).handles().contains(id),
    decreases es.len(),
{
    if es.len() > 0 {
        lemma_edit_keeps_wf(m, es[0]);
        lemma_removed_handle_never_returns(m.edited(es[0]), id, es.drop_first());
    }
}

/// Whether handles are listed in strictly increasing order.
pub open spec fn strictly_increasing(s: Seq<usize>) -> bool {
    forall|i: int, j: int| 0 <= i < j < s.len() ==> s[i] < s[j]
}

proof fn lemma_drop_last_set(a: Seq<usize>)
    requires
        strictly_increasing(a),
        a.len() > 0,
    ensures
        a.drop_last().to_set() == a.to_set().remove(a.last()),
        strictly_increasing(a.drop_last()),
        forall|h: usize| #[trigger] a.to_set().contains(h) ==> h <= a.last(),
{
    let d = a.drop_last();
    assert forall|h: usize| #[trigger] a.to_set().contains(h) implies h <= a.last() by {
        let k = choose|k: int| 0 <= k < a.len() && a[k] == h;
        if k < a.len() - 1 {
            assert(a[k] < a[a.len() - 1]);
        }
    }
    assert forall|h: usize| d.to_set().contains(h) <==> a.to_set().remove(a.last()).contains(h) by {
        if d.to_set().contains(h) {
            let k = choose|k: int| 0 <= k < d.len() && d[k] == h;
            assert(a[k] == h);
            assert(a[k] < a[a.len() - 1]);
            assert(a.to_set().contains(h));
        }
        if a.to_set().remove(a.last()).contains(h) {
            let k = choose|k: int| 0 <= k < a.len() && a[k] == h;
            assert(k != a.len() - 1);
            assert(d[k] == h);
            assert(d.to_set().contains(h));
        }
    }
    assert(d.to_set() =~= a.to_set().remove(a.last()));
}

/// A set of handles has exactly one listing in strictly increasing order.
pub proof fn lemma_increasing_listing_unique(a: Seq<usize>, b: Seq<usize>)
    requires
        strictly_increasing(a),
        strictly_increasing(b),
        a.to_set() == b.to_set(),
    ensures
        a == b,
    decreases a.len(),
{
    if a.len() == 0 {
        if b.len() > 0 {
            assert(b.to_set().contains(b[0]));
            assert(a.to_set().contains(b[0]));
            let k = choose|k: int| 0 <= k < a.len() && a[k] == b[0];
        }
        assert(a =~= b);
    } else {
        assert(a.to_set().contains(a.last()));
        assert(b.to_set().contains(a.last()));
        assert(b.len() > 0) by {
            let k = choose|k: int| 0 <= k < b.len() && b[k] == a.last();
        }
        lemma_drop_last_set(a);
        lemma_drop_last_set(b);
        assert(a.to_set().contains(b.last()));
        assert(a.last() == b.last());
        lemma_increasing_listing_unique(a.drop_last(), b.drop_last());
        assert(a =~= a.drop_last().push(a.last()));
        assert(b =~= b.drop_last().push(b.last()));
    }
}

/// Registering a window appends its handle to the listing of handles: if
/// `listing` lists the registered handles in increasing order, then after a
/// registration the only such listing is `listing` followed by the issued
/// handle (so `ids()` afterwards is `ids()` before plus the new handle).
pub proof fn lemma_register_appends_handle<T>(m: RegistryModel<T>, window: T, listing: Seq<usize>, after: Seq<usize>)
    requires
        m.wf(),
        m.can_issue(),
        strictly_increasing(listing),
        listing.to_set() == m.handles(),
        strictly_increasing(after),
        after.to_set() == m.registered(window).handles(),
    ensures
        after == listing.push(m.issued()),
{
    let p = listing.push(m.issued());
    assert forall|i: int, j: int| 0 <= i < j < p.len() implies p[i] < p[j] by {
        if j == p.len() - 1 {
            assert(m.handles().contains(listing[i]));
        } else {
            assert(p[i] == listing[i] && p[j] == listing[j]);
        }
    }
    assert forall|h: usize| p.to_set().contains(h) <==> m.registered(window).handles().contains(h) by {
        if p.to_set().contains(h) {
            let k = choose|k: int| 0 <= k < p.len() && p[k] == h;
            if k < listing.len() {
                assert(listing[k] == h);
                assert(listing.to_set().contains(h));
            }
        }
        if m.registered(window).handles().contains(h) && h != m.issued() {
            assert(listing.to_set().contains(h));
            let k = choose|k: int| 0 <= k < listing.len() && listing[k] == h;
            assert(p[k] == h);
        }
        if h == m.issued() {
            assert(p[p.len() - 1] == h);
        }
    }
    assert(p.to_set() =~= m.registered(window).handles());
    lemma_increasing_listing_unique(after, p);
}

/// Removing a handle unregisters it for good: it is no longer registered
/// (so `get` answers `None` for it), every other handle keeps its window,
/// the handle counter is unchanged, and no later edits bring the handle back.
pub proof fn lemma_remove_unregisters_for_good<T>(m: RegistryModel<T>, id: usize, es: Seq<RegistryEdit<T>>)
    requires
        m.wf(),
        id <= m.last,
    ensures
        !m.removed(id).handles().contains(id),
        m.removed(id).windows == m.windows.remove(id),
        m.removed(id).last == m.last,
        m.removed(id).wf(),
        !m.removed(id).edited_all(es).handles().contains(id),
{
    lemma_removed_handle_never_returns(m.removed(id), id, es);
}

/// The keys of a map with `usize` keys come out of `keys()` in strictly
/// increasing order, once each.
proof fn lemma_keys_in_order<V>(m: &BTreeMap<usize, V>)
    ensures
        vstd::std_specs::btree::key_obeys_cmp_spec::<usize>(),
        vstd::std_specs::btree::spec_keys_iter(m).remaining().unref().to_set() == m@.dom(),
        vstd::std_specs::btree::spec_keys_iter(m).remaining().len() == m@.dom().len(),
        forall|i: int, j: int|
            0 <= i < j < vstd::std_specs::btree::spec_keys_iter(m).remaining().len() ==> *vstd::std_specs::btree::spec_keys_iter(m).remaining()[i]
                < *vstd::std_specs::btree::spec_keys_iter(m).remaining()[j],
{
    let ks = vstd::std_specs::btree::spec_keys_iter(m).remaining();
    assert(vstd::laws_cmp::obeys_cmp::<usize>());
    assert(vstd::laws_cmp::obeys_cmp::<&usize>());
    assert(vstd::std_specs::btree::increasing_seq(ks));
    assert forall|i: int, j: int| 0 <= i < j < ks.len() implies *ks[i] < *ks[j] by {
        lemma_increasing_entries(ks, i, j);
    }
}

proof fn lemma_increasing_entries<K: Ord>(s: Seq<K>, i: int, j: int)
    requires
        vstd::laws_cmp::obeys_cmp::<K>(),
        vstd::std_specs::btree::increasing_seq(s),
        0 <= i < j < s.len(),
    ensures
        s[i].cmp_spec(&s[j]) is Less,
{
    vstd::std_specs::btree::axiom_increasing_seq_meaning::<K>(s);
}

} // verus!
