//! The registry of overlay sockets: which sessions are open, and which overlay each shows.
use vstd::prelude::*;
use crate::assoc::{assoc_map, has_key, keys_distinct, lemma_assoc_index, lemma_assoc_push};
use std::collections::{HashMap, HashSet};
use vstd::std_specs::hash::{spec_hash_keys_iter, spec_keys_iter};
use vstd::std_specs::iter::IteratorSpec;

verus! {

broadcast use vstd::std_specs::hash::group_hash_axioms;

/// The registry as a mathematical value.
pub struct RegistryView<S> {
    /// Each open session by its id.
    pub sessions: Map<usize, S>,
    /// The session ids of each overlay.
    pub overlays: Map<i32, Set<usize>>,
    /// The id the next session gets.
    pub next_id: usize,
}

/// The sessions of overlay `o` (none if it has no entry).
pub open spec fn members<S>(v: RegistryView<S>, o: i32) -> Set<usize> {
    if v.overlays.contains_key(o) {
        v.overlays[o]
    } else {
        Set::empty()
    }
}

/// What the registry keeps true: every session of an overlay is open, no session belongs to
/// two overlays, and every open session has an id below the next one.
pub open spec fn registry_inv<S>(v: RegistryView<S>) -> bool {
    &&& forall|o: i32, id: usize|
        v.overlays.contains_key(o) && #[trigger] v.overlays[o].contains(id) ==> v.sessions.contains_key(id)
    &&& forall|o1: i32, o2: i32, id: usize|
        o1 != o2 && v.overlays.contains_key(o1) && v.overlays.contains_key(o2) && #[trigger] v.overlays[o1].contains(id)
            ==> !#[trigger] v.overlays[o2].contains(id)
    &&& forall|id: usize| #[trigger] v.sessions.contains_key(id) ==> id < v.next_id
}

/// A socket of overlay `o` connects with handle `s`: it gets the next id, is recorded as open,
/// and joins the overlay's sessions.
pub open spec fn connect_spec<S>(v: RegistryView<S>, o: i32, s: S) -> RegistryView<S> {
    RegistryView {
        sessions: v.sessions.insert(v.next_id, s),
        overlays: v.overlays.insert(o, members(v, o).insert(v.next_id)),
        next_id: (v.next_id + 1) as usize,
    }
}

/// Session `id` disconnects: it leaves every overlay and is no longer open. Overlays keep their
/// (possibly empty) entries.
pub open spec fn disconnect_spec<S>(v: RegistryView<S>, id: usize) -> RegistryView<S> {
    RegistryView {
        sessions: v.sessions.remove(id),
        overlays: v.overlays.map_values(|m: Set<usize>| m.remove(id)),
        next_id: v.next_id,
    }
}

/// Overlay `o` is deleted: its entry goes, and so do all its sessions.
pub open spec fn delete_spec<S>(v: RegistryView<S>, o: i32) -> RegistryView<S> {
    RegistryView {
        sessions: v.sessions.remove_keys(members(v, o)),
        overlays: v.overlays.remove(o),
        next_id: v.next_id,
    }
}

/// Connecting keeps the registry's invariant.
pub proof fn law_connect_keeps_inv<S>(v: RegistryView<S>, o: i32, s: S)
    requires
        registry_inv(v),
        v.next_id < usize::MAX,
    ensures
        registry_inv(connect_spec(v, o, s)),
{
    let w = connect_spec(v, o, s);
    let n = v.next_id;
    assert(!v.sessions.contains_key(n));
    assert forall|o1: i32, o2: i32, id: usize|
        o1 != o2 && w.overlays.contains_key(o1) && w.overlays.contains_key(o2) && #[trigger] w.overlays[o1].contains(id)
            implies !#[trigger] w.overlays[o2].contains(id) by {
        if id == n {
            if o1 == o {
                assert(!v.overlays.contains_key(o2) || !v.overlays[o2].contains(n));
            } else {
                assert(!v.overlays[o1].contains(n));
            }
        } else {
            if o1 != o && o2 != o {
            } else if o1 == o {
                assert(members(v, o).contains(id));
            } else {
                if w.overlays[o2].contains(id) {
                    assert(members(v, o).contains(id));
                }
            }
        }
    }
    assert forall|o1: i32, id: usize|
        w.overlays.contains_key(o1) && #[trigger] w.overlays[o1].contains(id) implies w.sessions.contains_key(id) by {
        if o1 == o && id != n {
            assert(members(v, o).contains(id));
        }
    }
}

/// Disconnecting keeps the registry's invariant.
pub proof fn law_disconnect_keeps_inv<S>(v: RegistryView<S>, id: usize)
    requires
        registry_inv(v),
    ensures
        registry_inv(disconnect_spec(v, id)),
{
    let w = disconnect_spec(v, id);
    assert forall|o1: i32, x: usize|
        w.overlays.contains_key(o1) && #[trigger] w.overlays[o1].contains(x) implies w.sessions.contains_key(x) by {
        assert(v.overlays[o1].contains(x));
    }
    assert forall|o1: i32, o2: i32, x: usize|
        o1 != o2 && w.overlays.contains_key(o1) && w.overlays.contains_key(o2) && #[trigger] w.overlays[o1].contains(x)
            implies !#[trigger] w.overlays[o2].contains(x) by {
        assert(v.overlays[o1].contains(x));
        assert(!v.overlays[o2].contains(x));
    }
}

/// Deleting an overlay keeps the registry's invariant.
pub proof fn law_delete_keeps_inv<S>(v: RegistryView<S>, o: i32)
    requires
        registry_inv(v),
    ensures
        registry_inv(delete_spec(v, o)),
{
    let w = delete_spec(v, o);
    assert forall|o1: i32, x: usize|
        w.overlays.contains_key(o1) && #[trigger] w.overlays[o1].contains(x) implies w.sessions.contains_key(x) by {
        assert(v.overlays[o1].contains(x));
        if v.overlays.contains_key(o) {
            assert(!v.overlays[o].contains(x));
        }
        assert(!members(v, o).contains(x));
    }
}

/// A connected socket is among its overlay's sessions, under an id that no open session had.
pub proof fn law_connect_joins_overlay<S>(v: RegistryView<S>, o: i32, s: S)
    requires
        registry_inv(v),
        v.next_id < usize::MAX,
    ensures
        !v.sessions.contains_key(v.next_id),
        members(connect_spec(v, o, s), o) == members(v, o).insert(v.next_id),
        connect_spec(v, o, s).sessions[v.next_id] == s,
        forall|o2: i32| o2 != o ==> members(connect_spec(v, o, s), o2) == members(v, o2),
{
}

/// A connection followed by the disconnection of the new session leaves every overlay's sessions
/// and the open sessions as they were.
pub proof fn law_disconnect_undoes_connect<S>(v: RegistryView<S>, o: i32, s: S)
    requires
        registry_inv(v),
        v.next_id < usize::MAX,
    ensures
        ({
            let w = disconnect_spec(connect_spec(v, o, s), v.next_id);
            &&& w.sessions == v.sessions
            &&& forall|o2: i32| #[trigger] members(w, o2) == members(v, o2)
        }),
{
    let n = v.next_id;
    let w = disconnect_spec(connect_spec(v, o, s), n);
    assert(w.sessions =~= v.sessions);
    assert forall|o2: i32| #[trigger] members(w, o2) == members(v, o2) by {
        if v.overlays.contains_key(o2) {
            assert(!v.overlays[o2].contains(n));
            assert(members(w, o2) =~= members(v, o2));
        } else if o2 == o {
            assert(members(w, o2) =~= Set::<usize>::empty());
        }
    }
}

/// Disconnecting a session twice does what disconnecting it once does.
pub proof fn law_disconnect_idempotent<S>(v: RegistryView<S>, id: usize)
    ensures
        disconnect_spec(disconnect_spec(v, id), id) == disconnect_spec(v, id),
{
    let once = disconnect_spec(v, id);
    let twice = disconnect_spec(once, id);
    assert(twice.sessions =~= once.sessions);
    assert forall|o: i32| #[trigger] twice.overlays.contains_key(o) implies twice.overlays[o] == once.overlays[o] by {
        assert(twice.overlays[o] =~= once.overlays[o]);
    }
    assert(twice.overlays =~= once.overlays);
}

/// Deleting an overlay twice does what deleting it once does.
pub proof fn law_delete_idempotent<S>(v: RegistryView<S>, o: i32)
    ensures
        delete_spec(delete_spec(v, o), o) == delete_spec(v, o),
{
    let once = delete_spec(v, o);
    let twice = delete_spec(once, o);
    assert(members(once, o) =~= Set::<usize>::empty());
    assert(twice.sessions =~= once.sessions);
    assert(twice.overlays =~= once.overlays);
}

/// A disconnected session belongs to no overlay and is no longer open.
pub proof fn law_disconnect_leaves_all<S>(v: RegistryView<S>, id: usize)
    ensures
        !disconnect_spec(v, id).sessions.contains_key(id),
        forall|o: i32| !(#[trigger] members(disconnect_spec(v, id), o)).contains(id),
{
}

/// After deleting an overlay it has no sessions, none of its sessions stays open, and every
/// other overlay keeps exactly its sessions, which stay open.
pub proof fn law_delete_closes_overlay<S>(v: RegistryView<S>, o: i32)
    requires
        registry_inv(v),
    ensures
        members(delete_spec(v, o), o) == Set::<usize>::empty(),
        forall|id: usize| #[trigger] members(v, o).contains(id) ==> !delete_spec(v, o).sessions.contains_key(id),
        forall|o2: i32| o2 != o ==> #[trigger] members(delete_spec(v, o), o2) == members(v, o2),
        forall|o2: i32, id: usize| o2 != o && #[trigger] members(v, o2).contains(id)
            ==> delete_spec(v, o).sessions.contains_key(id) && delete_spec(v, o).sessions[id] == v.sessions[id],
{
    assert forall|o2: i32, id: usize| o2 != o && #[trigger] members(v, o2).contains(id)
        implies delete_spec(v, o).sessions.contains_key(id) && delete_spec(v, o).sessions[id] == v.sessions[id] by {
        assert(v.overlays[o2].contains(id));
        if v.overlays.contains_key(o) {
            assert(!v.overlays[o].contains(id));
        }
    }
}


/// Every open session belongs to some overlay.
pub open spec fn sessions_joined<S>(v: RegistryView<S>) -> bool {
    forall|id: usize| #[trigger] v.sessions.contains_key(id) ==> exists|o: i32| #[trigger] members(v, o).contains(id)
}

/// Each step of the registry keeps every open session in some overlay: a connection puts the
/// new session in its overlay, a disconnection closes the session it takes out, and deleting
/// an overlay closes its sessions while the others stay in theirs.
pub proof fn law_sessions_stay_joined<S>(v: RegistryView<S>, o: i32, s: S, id: usize)
    requires
        registry_inv(v),
        sessions_joined(v),
        v.next_id < usize::MAX,
    ensures
        sessions_joined(connect_spec(v, o, s)),
        sessions_joined(disconnect_spec(v, id)),
        sessions_joined(delete_spec(v, o)),
{
    let c = connect_spec(v, o, s);
    assert forall|x: usize| #[trigger] c.sessions.contains_key(x) implies exists|o2: i32| #[trigger] members(c, o2).contains(x) by {
        if x == v.next_id {
            assert(members(c, o).contains(x));
        } else {
            let o2 = choose|o2: i32| #[trigger] members(v, o2).contains(x);
            assert(members(c, o2).contains(x));
        }
    }
    let d = disconnect_spec(v, id);
    assert forall|x: usize| #[trigger] d.sessions.contains_key(x) implies exists|o2: i32| #[trigger] members(d, o2).contains(x) by {
        let o2 = choose|o2: i32| #[trigger] members(v, o2).contains(x);
        assert(members(d, o2).contains(x));
    }
    let e = delete_spec(v, o);
    assert forall|x: usize| #[trigger] e.sessions.contains_key(x) implies exists|o2: i32| #[trigger] members(e, o2).contains(x) by {
        let o2 = choose|o2: i32| #[trigger] members(v, o2).contains(x);
        assert(o2 != o);
        assert(members(e, o2).contains(x));
    }
}

/// Every session of overlay `o` got its id at or after `n`, and `n` has been handed out.
pub open spec fn opened_since<S>(v: RegistryView<S>, o: i32, n: usize) -> bool {
    &&& n <= v.next_id
    &&& forall|id: usize| #[trigger] members(v, o).contains(id) ==> n <= id
}

/// Closing an overlay's sockets, as when its secret is reset, leaves it with no session that
/// was open before: every session open then had an id below the next one, and afterwards each
/// session of the overlay has an id from the next one on.
pub proof fn law_close_leaves_no_old_session<S>(v: RegistryView<S>, o: i32)
    requires
        registry_inv(v),
    ensures
        forall|id: usize| #[trigger] v.sessions.contains_key(id) ==> id < v.next_id,
        opened_since(delete_spec(v, o), o, v.next_id),
{
    assert(members(delete_spec(v, o), o) =~= Set::<usize>::empty());
}

/// Once every session of overlay `o` opened at or after `n`, this stays so whatever the
/// registry does next: a connection (to any overlay), a disconnection, or closing any overlay.
/// So a socket opened before its overlay's sockets were closed never receives its commands again.
pub proof fn law_opened_since_kept<S>(v: RegistryView<S>, o: i32, n: usize, o2: i32, s: S, id: usize)
    requires
        opened_since(v, o, n),
        v.next_id < usize::MAX,
    ensures
        opened_since(connect_spec(v, o2, s), o, n),
        opened_since(disconnect_spec(v, id), o, n),
        opened_since(delete_spec(v, o2), o, n),
{
    let c = connect_spec(v, o2, s);
    assert forall|x: usize| #[trigger] members(c, o).contains(x) implies n <= x by {
        if x != v.next_id {
            assert(members(v, o).contains(x));
        }
    }
    let d = disconnect_spec(v, id);
    assert forall|x: usize| #[trigger] members(d, o).contains(x) implies n <= x by {
        assert(members(v, o).contains(x));
    }
    let e = delete_spec(v, o2);
    assert forall|x: usize| #[trigger] members(e, o).contains(x) implies n <= x by {
        assert(members(v, o).contains(x));
    }
}

/// The session ids of a list of command targets, in order.
pub open spec fn target_ids<'a, S>(r: Seq<(usize, &'a S)>) -> Seq<usize> {
    r.map_values(|p: (usize, &'a S)| p.0)
}

/// The open overlay sockets, each with a handle of type `S`, and the sessions of each overlay.
pub struct SessionRegistry<S> {
    sessions: HashMap<usize, S>,
    overlays: HashMap<i32, HashSet<usize>>,
    next_session_id: usize,
}

impl<S> View for SessionRegistry<S> {
    type V = RegistryView<S>;

    /// The registry as a mathematical value.
    closed spec fn view(&self) -> RegistryView<S> {
        RegistryView {
            sessions: self.sessions@,
            overlays: self.overlays@.map_values(|m: HashSet<usize>| m@),
            next_id: self.next_session_id,
        }
    }
}

impl<S> SessionRegistry<S> {

    /// The registry's invariant holds of it.
    pub closed spec fn wf(&self) -> bool {
        registry_inv(self.view())
    }

    /// An empty registry; the first session gets id 0.
    pub fn new() -> (r: Self)
        ensures
            r.wf(),
            r.view().sessions == Map::<usize, S>::empty(),
            r.view().overlays == Map::<i32, Set<usize>>::empty(),
            r.view().next_id == 0,
    {
        let r = SessionRegistry { sessions: HashMap::new(), overlays: HashMap::new(), next_session_id: 0 };
        assert(r.view().overlays =~= Map::<i32, Set<usize>>::empty());
        r
    }

    /// Records a new socket of overlay `overlay_id` with handle `session`; returns its session
    /// id, which is the next id in order.
    pub fn connect(&mut self, overlay_id: i32, session: S) -> (id: usize)
        requires
            old(self).wf(),
            old(self).view().next_id < usize::MAX,
        ensures
            final(self).wf(),
            id == old(self).view().next_id,
            final(self).view() == connect_spec(old(self).view(), overlay_id, session),
    {
        let ghost v = self.view();
        let ghost handle = session;
        let id = self.next_session_id;
        self.next_session_id = id + 1;
        let mut ids = match self.overlays.remove(&overlay_id) {
            Some(ids) => ids,
            None => HashSet::new(),
        };
        assert(ids@ == members(v, overlay_id));
        ids.insert(id);
        self.overlays.insert(overlay_id, ids);
        self.sessions.insert(id, session);
        proof {
            assert(self.view().overlays =~= v.overlays.insert(overlay_id, members(v, overlay_id).insert(id)));
            assert(self.view() == connect_spec(v, overlay_id, handle));
            law_connect_keeps_inv(v, overlay_id, handle);
        }
        id
    }

    /// Session `id` disconnects: it leaves every overlay and its handle is dropped.
    pub fn disconnect(&mut self, id: usize)
        requires
            old(self).wf(),
        ensures
            final(self).wf(),
            final(self).view() == disconnect_spec(old(self).view(), id),
    {
        let ghost v = self.view();
        let ghost ov = self.overlays@;
        let ghost ks = spec_keys_iter(&self.overlays).remaining();
        let mut keys: Vec<i32> = Vec::new();
        for k in it: self.overlays.keys()
            invariant
                it.seq() == ks,
                it.index() <= ks.len(),
                keys@ == ks.unref().take(it.index() as int),
        {
            assert(*k == *ks[it.index()]);
            keys.push(*k);
            assert(ks.unref().take(it.index() + 1) =~= ks.unref().take(it.index() as int).push(*k));
        }
        assert(keys@ =~= ks.unref());
        assert(keys@.no_duplicates()) by {
            assert forall|a: int, b: int| 0 <= a < keys@.len() && 0 <= b < keys@.len() && a != b implies keys@[a] != keys@[b] by {
                assert(ks[a] != ks[b]);
            }
        }
        let n = keys.len();
        let mut j: usize = 0;
        while j < n
            invariant
                n == keys@.len(),
                j <= n,
                keys@.to_set() == ov.dom(),
                keys@.no_duplicates(),
                self.overlays@.dom() == ov.dom(),
                forall|o: i32| #[trigger] self.overlays@.contains_key(o) ==> self.overlays@[o]@ == (if keys@.take(j as int).contains(o) {
                    ov[o]@.remove(id)
                } else {
                    ov[o]@
                }),
                self.sessions@ == v.sessions,
                self.next_session_id == v.next_id,
            decreases n - j,
        {
            let o = keys[j];
            let ghost before = self.overlays@;
            assert(keys@.to_set().contains(o));
            let mut ids = match self.overlays.remove(&o) {
                Some(ids) => ids,
                None => HashSet::new(),
            };
            assert(ids@ == before[o]@);
            ids.remove(&id);
            self.overlays.insert(o, ids);
            proof {
                let done = keys@.take(j as int);
                assert(keys@.take(j + 1) =~= done.push(o));
                assert(!done.contains(o)) by {
                    if done.contains(o) {
                        let a = choose|a: int| 0 <= a < j && done[a] == o;
                        assert(keys@[a] == keys@[j as int]);
                    }
                }
                let next = done.push(o);
                assert forall|o2: i32| #[trigger] self.overlays@.contains_key(o2) implies self.overlays@[o2]@ == (if next.contains(o2) {
                    ov[o2]@.remove(id)
                } else {
                    ov[o2]@
                }) by {
                    assert(next.contains(o2) == (done.contains(o2) || o2 == o)) by {
                        if done.contains(o2) {
                            let a = choose|a: int| 0 <= a < done.len() && done[a] == o2;
                            assert(next[a] == o2);
                        }
                        if o2 == o {
                            assert(next[j as int] == o2);
                        }
                        if next.contains(o2) {
                            let a = choose|a: int| 0 <= a < next.len() && next[a] == o2;
                            if a < j {
                                assert(done[a] == o2);
                            }
                        }
                    }
                }
                assert(self.overlays@.dom() =~= ov.dom());
            }
            j = j + 1;
        }
        self.sessions.remove(&id);
        proof {
            assert(keys@.take(n as int) =~= keys@);
            assert forall|o: i32| #[trigger] ov.contains_key(o) implies keys@.contains(o) by {
                assert(keys@.to_set().contains(o));
            }
            assert(self.view().overlays =~= v.overlays.map_values(|m: Set<usize>| m.remove(id)));
            assert(self.view() == disconnect_spec(v, id));
            law_disconnect_keeps_inv(v, id);
        }
    }

    /// Deletes overlay `overlay_id`: its entry is removed and all its sessions are closed.
    /// Returns the removed sessions with their ids, to be told to close.
    pub fn delete_overlay(&mut self, overlay_id: i32) -> (removed: Vec<(usize, S)>)
        requires
            old(self).wf(),
        ensures
            final(self).wf(),
            final(self).view() == delete_spec(old(self).view(), overlay_id),
            keys_distinct(removed@),
            assoc_map(removed@) == old(self).view().sessions.restrict(members(old(self).view(), overlay_id)),
    {
        let ghost v = self.view();
        let mut removed: Vec<(usize, S)> = Vec::new();
        match self.overlays.remove(&overlay_id) {
            None => {
                proof {
                    assert(members(v, overlay_id) =~= Set::<usize>::empty());
                    assert(v.sessions.remove_keys(Set::<usize>::empty()) =~= v.sessions);
                    assert(self.view().overlays =~= v.overlays.remove(overlay_id));
                    assert(removed@ =~= Seq::<(usize, S)>::empty());
                    assert(assoc_map(removed@) =~= v.sessions.restrict(Set::<usize>::empty()));
                    assert(self.view() == delete_spec(v, overlay_id));
                }
                removed
            },
            Some(ids) => {
                assert(ids@ == members(v, overlay_id));
                assert(self.view().overlays =~= v.overlays.remove(overlay_id));
                let ghost ov2 = self.overlays@;
                let ghost ks = spec_hash_keys_iter(&ids).remaining();
                let ghost us = ks.unref();
                assert(us.no_duplicates()) by {
                    assert forall|a: int, b: int| 0 <= a < us.len() && 0 <= b < us.len() && a != b implies us[a] != us[b] by {
                        assert(ks[a] != ks[b]);
                    }
                }
                assert(us.take(0).to_set() =~= Set::<usize>::empty());
                assert(v.sessions.remove_keys(Set::<usize>::empty()) =~= v.sessions);
                assert(assoc_map(removed@) =~= v.sessions.restrict(Set::<usize>::empty()));
                for sid in it: ids.iter()
                    invariant
                        it.seq() == ks,
                        us == ks.unref(),
                        us.no_duplicates(),
                        it.index() <= ks.len(),
                        self.sessions@ == v.sessions.remove_keys(us.take(it.index() as int).to_set()),
                        keys_distinct(removed@),
                        assoc_map(removed@) == v.sessions.restrict(us.take(it.index() as int).to_set()),
                        self.overlays@ == ov2,
                        self.next_session_id == v.next_id,
                {
                    let ghost k = it.index();
                    let s = *sid;
                    assert(s == us[k]);
                    let ghost done = us.take(k).to_set();
                    assert(us.take(k + 1).to_set() =~= done.insert(s)) by {
                        assert(us.take(k + 1) =~= us.take(k).push(s));
                        us.take(k).lemma_push_to_set_commute(s);
                    }
                    assert(!done.contains(s)) by {
                        if done.contains(s) {
                            let a = choose|a: int| 0 <= a < k && us.take(k)[a] == s;
                            assert(us[a] == us[k]);
                        }
                    }
                    let ghost ss = self.sessions@;
                    let ghost rr = removed@;
                    match self.sessions.remove(&s) {
                        Some(h) => {
                            proof {
                                assert(!has_key(rr, s)) by {
                                    if has_key(rr, s) {
                                        let a = choose|a: int| 0 <= a < rr.len() && rr[a].0 == s;
                                        lemma_assoc_index(rr, a);
                                    }
                                }
                            }
                            let ghost hh = h;
                            removed.push((s, h));
                            proof {
                                lemma_assoc_push(rr, s, hh);
                                assert(self.sessions@ =~= v.sessions.remove_keys(done.insert(s)));
                                assert(assoc_map(removed@) =~= v.sessions.restrict(done.insert(s)));
                            }
                        },
                        None => {
                            proof {
                                assert(!v.sessions.contains_key(s));
                                assert(self.sessions@ =~= v.sessions.remove_keys(done.insert(s)));
                                assert(assoc_map(removed@) =~= v.sessions.restrict(done.insert(s)));
                            }
                        },
                    }
                }
                proof {
                    assert(us.take(us.len() as int) =~= us);
                    assert(us.to_set() == members(v, overlay_id));
                    assert(self.view() == delete_spec(v, overlay_id));
                    law_delete_keeps_inv(v, overlay_id);
                }
                removed
            },
        }
    }

    /// The session ids of overlay `overlay_id`, each once.
    pub fn members_of(&self, overlay_id: i32) -> (r: Vec<usize>)
        requires
            self.wf(),
        ensures
            r@.no_duplicates(),
            r@.to_set() == members(self.view(), overlay_id),
    {
        let mut r: Vec<usize> = Vec::new();
        match self.overlays.get(&overlay_id) {
            None => {
                assert(r@.to_set() =~= Set::<usize>::empty());
                r
            },
            Some(ids) => {
                assert(ids@ == members(self.view(), overlay_id));
                let ghost ks = spec_hash_keys_iter(ids).remaining();
                for x in it: ids.iter()
                    invariant
                        it.seq() == ks,
                        it.index() <= ks.len(),
                        r@ == ks.unref().take(it.index() as int),
                {
                    assert(*x == *ks[it.index()]);
                    r.push(*x);
                    assert(ks.unref().take(it.index() + 1) =~= ks.unref().take(it.index() as int).push(*x));
                }
                assert(r@ =~= ks.unref());
                assert(r@.no_duplicates()) by {
                    assert forall|a: int, b: int| 0 <= a < r@.len() && 0 <= b < r@.len() && a != b implies r@[a] != r@[b] by {
                        assert(ks[a] != ks[b]);
                    }
                }
                r
            },
        }
    }

    /// The sessions a command for overlay `overlay_id` goes to: each session of the overlay
    /// once, with its handle.
    pub fn command_targets(&self, overlay_id: i32) -> (r: Vec<(usize, &S)>)
        requires
            self.wf(),
        ensures
            target_ids(r@).no_duplicates(),
            target_ids(r@).to_set() == members(self.view(), overlay_id),
            forall|i: int| 0 <= i < r@.len() ==> self.view().sessions.contains_key((#[trigger] r@[i]).0) && *r@[i].1 == self.view().sessions[r@[i].0],
    {
        proof {
            self.lemma_wf_inv();
        }
        let ids = self.members_of(overlay_id);
        let mut r: Vec<(usize, &S)> = Vec::new();
        let n = ids.len();
        let mut k: usize = 0;
        while k < n
            invariant
                n == ids@.len(),
                k <= n,
                self.wf(),
                registry_inv(self.view()),
                ids@.no_duplicates(),
                ids@.to_set() == members(self.view(), overlay_id),
                target_ids(r@) == ids@.take(k as int),
                forall|i: int| 0 <= i < r@.len() ==> self.view().sessions.contains_key((#[trigger] r@[i]).0) && *r@[i].1 == self.view().sessions[r@[i].0],
            decreases n - k,
        {
            let id = ids[k];
            assert(ids@.to_set().contains(id));
            assert(self.view().overlays.contains_key(overlay_id) && self.view().overlays[overlay_id].contains(id));
            match self.session(id) {
                Some(h) => {
                    let ghost before = r@;
                    r.push((id, h));
                    assert(r@ == before.push((id, h)));
                    assert(target_ids(r@) =~= target_ids(before).push(id));
                },
                None => {
                    assert(false);
                },
            }
            assert(ids@.take(k + 1) =~= ids@.take(k as int).push(id));
            k = k + 1;
        }
        assert(ids@.take(n as int) =~= ids@);
        r
    }

    /// The handle of the open session `id`, if there is one.
    pub fn session(&self, id: usize) -> (r: Option<&S>)
        requires
            self.wf(),
        ensures
            r is Some <==> self.view().sessions.contains_key(id),
            r matches Some(s) ==> *s == self.view().sessions[id],
    {
        self.sessions.get(&id)
    }

    /// A well-formed registry satisfies the registry's invariant, so the laws on
    /// `RegistryView` apply to it.
    pub proof fn lemma_wf_inv(&self)
        requires
            self.wf(),
        ensures
            registry_inv(self.view()),
    {
    }

    /// The id the next session gets.
    pub fn next_session_id(&self) -> (r: usize)
        ensures
            r == self.view().next_id,
    {
        self.next_session_id
    }
}

} // verus!
