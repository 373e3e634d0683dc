//! Why the state stays well formed: what each kind of change keeps.

use crate::event::Event;
use crate::event::LogicalSize;
use crate::event::WindowId;
use crate::model::has_update;
use crate::model::is_raw;
use crate::model::other_event;
use crate::model::other_update;
use crate::model::other_window;
use crate::model::pending_update;
use crate::model::replace_window;
use crate::model::StateView;
use crate::model::without_window;
use crate::window::WindowCompositorUpdate;
use crate::window::WindowEntry;
use crate::window::WindowRequests;
use crate::window::WindowState;
use vstd::prelude::*;

verus! {

impl StateView {
    /// In a well-formed state the window at position `i` is the one its
    /// identity names.
    pub proof fn lemma_entry_at(self, i: int)
        requires
            self.wf(),
            0 <= i < self.windows.len(),
        ensures
            self.is_live(self.windows[i].id),
            self.index_of(self.windows[i].id) == i,
            self.entry(self.windows[i].id) == self.windows[i],
    {
        let id = self.windows[i].id;
        assert(self.is_live(id));
        let j = self.index_of(id);
        assert(0 <= j < self.windows.len() && self.windows[j].id == id);
        if j < i {
            assert(self.windows[j].id != self.windows[i].id);
        } else if i < j {
            assert(self.windows[i].id != self.windows[j].id);
        }
    }

    /// Putting a well-formed entry in the place of a live window keeps the
    /// state well formed, changes that one position only, and leaves every
    /// other window as it was.
    pub proof fn lemma_replace_window(self, id: WindowId, entry: WindowEntry)
        requires
            self.wf(),
            self.is_live(id),
            entry.id == id,
            entry.window.wf(),
        ensures
            ({
                let t = StateView { windows: replace_window(self.windows, id, entry), ..self };
                &&& t.wf()
                &&& t.windows == self.windows.update(self.index_of(id), entry)
                &&& t.window_ids() == self.window_ids()
                &&& t.entry(id) == entry
                &&& forall|x: WindowId| #[trigger] t.is_live(x) == self.is_live(x)
                &&& forall|x: WindowId|
                    x != id && self.is_live(x) ==> #[trigger] t.entry(x) == self.entry(x)
            }),
    {
        let t = StateView { windows: replace_window(self.windows, id, entry), ..self };
        let k = self.index_of(id);
        self.lemma_entry_at(k);
        assert forall|i: int| 0 <= i < self.windows.len() implies #[trigger] t.windows[i]
            == self.windows.update(k, entry)[i] by {
            if i != k {
                self.lemma_entry_at(i);
            }
        }
        assert(t.windows =~= self.windows.update(k, entry));
        assert(t.window_ids() =~= self.window_ids());
        assert forall|x: WindowId| #[trigger] t.is_live(x) == self.is_live(x) by {
            if self.is_live(x) {
                let i = self.index_of(x);
                assert(t.windows[i].id == x);
            }
            if t.is_live(x) {
                let i = t.index_of(x);
                assert(self.windows[i].id == x);
            }
        }
        assert(t.wf()) by {
            assert forall|i: int, j: int| 0 <= i < j < t.windows.len() implies #[trigger] t.windows[i].id
                != #[trigger] t.windows[j].id by {
                assert(self.windows[i].id != self.windows[j].id);
            }
            assert forall|i: int| 0 <= i < t.compositor_updates.len() implies t.is_live(
                #[trigger] t.compositor_updates[i].window_id,
            ) by {
                assert(self.is_live(self.compositor_updates[i].window_id));
            }
        }
        t.lemma_entry_at(k);
        assert forall|x: WindowId| x != id && self.is_live(x) implies #[trigger] t.entry(x)
            == self.entry(x) by {
            let i = self.index_of(x);
            self.lemma_entry_at(i);
            t.lemma_entry_at(i);
        }
    }
}


/// Whether no two elements of `s` have the same key.
pub open spec fn distinct_keys<A, K>(s: Seq<A>, key: spec_fn(A) -> K) -> bool {
    forall|i: int, j: int| 0 <= i < j < s.len() ==> key(#[trigger] s[i]) != key(#[trigger] s[j])
}

/// Filtering keeps keys distinct.
pub proof fn lemma_filter_distinct<A, K>(s: Seq<A>, key: spec_fn(A) -> K, p: spec_fn(A) -> bool)
    requires
        distinct_keys(s, key),
    ensures
        distinct_keys(s.filter(p), key),
    decreases s.len(),
{
    reveal(Seq::filter);
    if s.len() > 0 {
        let rest = s.drop_last();
        assert forall|i: int, j: int| 0 <= i < j < rest.len() implies key(#[trigger] rest[i])
            != key(#[trigger] rest[j]) by {
            assert(rest[i] == s[i] && rest[j] == s[j]);
        }
        lemma_filter_distinct(rest, key, p);
        let f = s.filter(p);
        let fr = rest.filter(p);
        if p(s.last()) {
            assert forall|i: int, j: int| 0 <= i < j < f.len() implies key(#[trigger] f[i]) != key(
                #[trigger] f[j],
            ) by {
                if j < fr.len() {
                    assert(f[i] == fr[i] && f[j] == fr[j]);
                } else {
                    assert(f[i] == fr[i]);
                    assert(fr.contains(fr[i]));
                    rest.lemma_filter_contains_rev(p, fr[i]);
                    let k = choose|k: int| 0 <= k < rest.len() && rest[k] == fr[i];
                    assert(s[k] == fr[i]);
                    assert(key(s[k]) != key(s[s.len() - 1]));
                }
            }
        }
    }
}

/// The elements that a filter keeps are those of the sequence that pass.
pub proof fn lemma_filter_members<A>(s: Seq<A>, p: spec_fn(A) -> bool)
    ensures
        forall|i: int|
            0 <= i < s.filter(p).len() ==> p(#[trigger] s.filter(p)[i]) && s.contains(
                s.filter(p)[i],
            ),
        forall|i: int| 0 <= i < s.len() && p(s[i]) ==> s.filter(p).contains(#[trigger] s[i]),
{
    let f = s.filter(p);
    assert forall|i: int| 0 <= i < f.len() implies p(#[trigger] f[i]) && s.contains(f[i]) by {
        s.lemma_filter_pred(p, i);
        assert(f.contains(f[i]));
        s.lemma_filter_contains_rev(p, f[i]);
    }
    assert forall|i: int| 0 <= i < s.len() && p(s[i]) implies f.contains(#[trigger] s[i]) by {
        s.lemma_filter_contains(p, i);
    }
}

impl StateView {
    /// Merging an update for a live window keeps the state well formed; the
    /// window then has exactly that update pending, and the updates of other
    /// windows stay as they were, in their order.
    pub proof fn lemma_set_update(self, update: WindowCompositorUpdate)
        requires
            self.wf(),
            self.is_live(update.window_id),
        ensures
            self.set_update(update).wf(),
            has_update(self.set_update(update).compositor_updates, update.window_id),
            pending_update(self.set_update(update).compositor_updates, update.window_id) == update,
            forall|x: WindowId| #[trigger] self.set_update(update).is_live(x) == self.is_live(x),
            forall|j: int|
                0 <= j < self.compositor_updates.len() && self.compositor_updates[j].window_id
                    == update.window_id ==> #[trigger] self.set_update(update).compositor_updates
                    == self.compositor_updates.update(j, update),
    {
        let id = update.window_id;
        let old_u = self.compositor_updates;
        let t = self.set_update(update);
        let new_u = t.compositor_updates;
        if has_update(old_u, id) {
            let j = choose|j: int| 0 <= j < old_u.len() && #[trigger] old_u[j].window_id == id;
            assert forall|i: int| 0 <= i < old_u.len() implies #[trigger] new_u[i] == old_u.update(
                j,
                update,
            )[i] by {
                if i < j {
                    assert(old_u[i].window_id != old_u[j].window_id);
                } else if j < i {
                    assert(old_u[j].window_id != old_u[i].window_id);
                }
            }
            assert(new_u =~= old_u.update(j, update));
            assert forall|k: int|
                0 <= k < old_u.len() && old_u[k].window_id == id implies new_u == old_u.update(
                k,
                update,
            ) by {
                if k < j {
                    assert(old_u[k].window_id != old_u[j].window_id);
                } else if j < k {
                    assert(old_u[j].window_id != old_u[k].window_id);
                }
            }
            assert(new_u[j].window_id == id);
        } else {
            assert(new_u[old_u.len() as int].window_id == id);
        }
        assert(has_update(new_u, id));
        assert forall|x: WindowId| #[trigger] t.is_live(x) == self.is_live(x) by {
            if self.is_live(x) {
                assert(t.windows[self.index_of(x)].id == x);
            }
            if t.is_live(x) {
                assert(self.windows[t.index_of(x)].id == x);
            }
        }
        assert(t.wf()) by {
            assert forall|a: int, b: int| 0 <= a < b < new_u.len() implies #[trigger] new_u[a].window_id
                != #[trigger] new_u[b].window_id by {
                if has_update(old_u, id) {
                    assert(old_u[a].window_id != old_u[b].window_id);
                } else if b < old_u.len() {
                    assert(old_u[a].window_id != old_u[b].window_id);
                } else {
                    assert(old_u[a].window_id != id);
                }
            }
            assert forall|a: int| 0 <= a < new_u.len() implies t.is_live(
                #[trigger] new_u[a].window_id,
            ) by {
                if a < old_u.len() {
                    assert(self.is_live(old_u[a].window_id));
                }
            }
        }
        let c = choose|c: int| 0 <= c < new_u.len() && #[trigger] new_u[c].window_id == id;
        assert(new_u[c] == update) by {
            if has_update(old_u, id) {
            } else {
                if c < old_u.len() {
                    assert(old_u[c].window_id == id);
                }
            }
        }
    }

    /// Taking a window out of every store keeps the state well formed.  The
    /// window is then gone, nothing pending names it, and every other window
    /// is as live as before.
    pub proof fn lemma_remove_window(self, id: WindowId)
        requires
            self.wf(),
        ensures
            self.remove_window(id).wf(),
            !self.remove_window(id).is_live(id),
            !has_update(self.remove_window(id).compositor_updates, id),
            forall|x: WindowId|
                x != id ==> #[trigger] self.remove_window(id).is_live(x) == self.is_live(x),
            forall|x: WindowId|
                x != id && self.is_live(x) ==> #[trigger] self.remove_window(id).entry(x)
                    == self.entry(x),
    {
        let t = self.remove_window(id);
        let pw = other_window(id);
        let pu = other_update(id);
        let pe = other_event(id);
        lemma_filter_members(self.windows, pw);
        lemma_filter_members(self.compositor_updates, pu);
        lemma_filter_members(self.events, pe);
        lemma_filter_members(self.window_events, pe);
        lemma_filter_distinct(self.windows, |e: WindowEntry| e.id, pw);
        lemma_filter_distinct(
            self.compositor_updates,
            |u: WindowCompositorUpdate| u.window_id,
            pu,
        );
        assert(!t.is_live(id)) by {
            if t.is_live(id) {
                let i = t.index_of(id);
                assert(pw(t.windows[i]));
            }
        }
        assert(!has_update(t.compositor_updates, id)) by {
            if has_update(t.compositor_updates, id) {
                let i = choose|i: int|
                    0 <= i < t.compositor_updates.len()
                        && #[trigger] t.compositor_updates[i].window_id == id;
                assert(pu(t.compositor_updates[i]));
            }
        }
        assert forall|x: WindowId| x != id implies #[trigger] t.is_live(x) == self.is_live(x) by {
            if self.is_live(x) {
                let i = self.index_of(x);
                assert(pw(self.windows[i]));
                assert(t.windows.contains(self.windows[i]));
                let k = choose|k: int| 0 <= k < t.windows.len() && t.windows[k] == self.windows[i];
                assert(t.windows[k].id == x);
            }
            if t.is_live(x) {
                let i = t.index_of(x);
                assert(self.windows.contains(t.windows[i]));
                let k = choose|k: int| 0 <= k < self.windows.len() && self.windows[k] == t.windows[i];
                assert(self.windows[k].id == x);
            }
        }
        assert(t.wf()) by {
            assert forall|i: int, j: int| 0 <= i < j < t.windows.len() implies #[trigger] t.windows[i].id
                != #[trigger] t.windows[j].id by {
                let key = |e: WindowEntry| e.id;
                assert(key(t.windows[i]) != key(t.windows[j]));
            }
            assert forall|i: int| 0 <= i < t.windows.len() implies (#[trigger] t.windows[i]).id.0
                < t.next_window_id && t.windows[i].window.wf() by {
                assert(self.windows.contains(t.windows[i]));
                let k = choose|k: int| 0 <= k < self.windows.len() && self.windows[k] == t.windows[i];
                assert(self.windows[k].window.wf());
            }
            assert forall|i: int, j: int|
                0 <= i < j < t.compositor_updates.len() implies #[trigger] t.compositor_updates[i].window_id
                != #[trigger] t.compositor_updates[j].window_id by {
                let key = |u: WindowCompositorUpdate| u.window_id;
                assert(key(t.compositor_updates[i]) != key(t.compositor_updates[j]));
            }
            assert forall|i: int| 0 <= i < t.compositor_updates.len() implies t.is_live(
                #[trigger] t.compositor_updates[i].window_id,
            ) by {
                let u = t.compositor_updates[i];
                assert(pu(u));
                assert(self.compositor_updates.contains(u));
                let k = choose|k: int|
                    0 <= k < self.compositor_updates.len() && self.compositor_updates[k] == u;
                assert(self.is_live(self.compositor_updates[k].window_id));
            }
            self.lemma_remove_window_events(id, self.events);
            self.lemma_remove_window_events(id, self.window_events);
        }
        assert forall|x: WindowId| x != id && self.is_live(x) implies #[trigger] t.entry(x)
            == self.entry(x) by {
            let i = self.index_of(x);
            self.lemma_entry_at(i);
            assert(pw(self.windows[i]));
            assert(t.windows.contains(self.windows[i]));
            let k = choose|k: int| 0 <= k < t.windows.len() && t.windows[k] == self.windows[i];
            t.lemma_entry_at(k);
        }
    }

    /// Events that were in order for a state stay in order, without those of
    /// window `id`, once that window is removed.
    proof fn lemma_remove_window_events(self, id: WindowId, events: Seq<Event>)
        requires
            self.events_ok(events),
            forall|x: WindowId|
                x != id ==> #[trigger] self.remove_window(id).is_live(x) == self.is_live(x),
        ensures
            self.remove_window(id).events_ok(without_window(events, id)),
    {
        let pe = other_event(id);
        let f = without_window(events, id);
        lemma_filter_members(events, pe);
        assert forall|i: int| 0 <= i < f.len() implies is_raw(#[trigger] f[i]) && (
        f[i].spec_window_id() matches Some(x) ==> self.remove_window(id).is_live(x)) by {
            assert(pe(f[i]));
            assert(events.contains(f[i]));
            let k = choose|k: int| 0 <= k < events.len() && events[k] == f[i];
            assert(is_raw(events[k]));
            if let Some(x) = f[i].spec_window_id() {
                assert(self.is_live(x));
                assert(self.remove_window(id).is_live(x) == self.is_live(x));
            }
        }
    }
}


impl StateView {
    /// A state with the same windows, where each pending collection is as
    /// before or empty, is well formed too, whatever its flags.
    pub proof fn lemma_same_store(self, t: StateView)
        requires
            self.wf(),
            t.windows == self.windows,
            t.next_window_id == self.next_window_id,
            t.compositor_updates == self.compositor_updates || t.compositor_updates.len() == 0,
            t.events == self.events || t.events.len() == 0,
            t.window_events == self.window_events || t.window_events.len() == 0,
        ensures
            t.wf(),
            forall|x: WindowId| #[trigger] t.is_live(x) == self.is_live(x),
    {
        assert forall|x: WindowId| #[trigger] t.is_live(x) == self.is_live(x) by {
            if self.is_live(x) {
                assert(t.windows[self.index_of(x)].id == x);
            }
            if t.is_live(x) {
                assert(self.windows[t.index_of(x)].id == x);
            }
        }
        assert forall|i: int| 0 <= i < t.compositor_updates.len() implies t.is_live(
            #[trigger] t.compositor_updates[i].window_id,
        ) by {
            assert(self.is_live(self.compositor_updates[i].window_id));
        }
        assert(t.events_ok(t.events)) by {
            assert forall|i: int| 0 <= i < t.events.len() implies is_raw(#[trigger] t.events[i]) && (
            t.events[i].spec_window_id() matches Some(id) ==> t.is_live(id)) by {
                assert(is_raw(self.events[i]));
            }
        }
        assert(t.events_ok(t.window_events)) by {
            assert forall|i: int| 0 <= i < t.window_events.len() implies is_raw(
                #[trigger] t.window_events[i],
            ) && (t.window_events[i].spec_window_id() matches Some(id) ==> t.is_live(id)) by {
                assert(is_raw(self.window_events[i]));
            }
        }
    }

    /// Buffering an event keeps the state well formed.
    pub proof fn lemma_push_event(self, event: Event)
        requires
            self.wf(),
        ensures
            self.push_event(event).wf(),
            self.push_window_event(event).wf(),
    {
        let t = self.push_event(event);
        let u = self.push_window_event(event);
        let base = StateView { events: Seq::empty(), window_events: Seq::empty(), ..self };
        self.lemma_same_store(base);
        if self.accepts(event) {
            assert forall|x: WindowId| #[trigger] t.is_live(x) == self.is_live(x) by {
                if self.is_live(x) {
                    assert(t.windows[self.index_of(x)].id == x);
                }
                if t.is_live(x) {
                    assert(self.windows[t.index_of(x)].id == x);
                }
            }
            assert forall|x: WindowId| #[trigger] u.is_live(x) == self.is_live(x) by {
                if self.is_live(x) {
                    assert(u.windows[self.index_of(x)].id == x);
                }
                if u.is_live(x) {
                    assert(self.windows[u.index_of(x)].id == x);
                }
            }
            assert forall|i: int| 0 <= i < t.compositor_updates.len() implies t.is_live(
                #[trigger] t.compositor_updates[i].window_id,
            ) by {
                assert(self.is_live(self.compositor_updates[i].window_id));
            }
            assert forall|i: int| 0 <= i < u.compositor_updates.len() implies u.is_live(
                #[trigger] u.compositor_updates[i].window_id,
            ) by {
                assert(self.is_live(self.compositor_updates[i].window_id));
            }
            assert forall|i: int| 0 <= i < t.events.len() implies is_raw(#[trigger] t.events[i]) && (
            t.events[i].spec_window_id() matches Some(id) ==> t.is_live(id)) by {
                if i < self.events.len() {
                    assert(is_raw(self.events[i]));
                }
            }
            assert forall|i: int| 0 <= i < t.window_events.len() implies is_raw(
                #[trigger] t.window_events[i],
            ) && (t.window_events[i].spec_window_id() matches Some(id) ==> t.is_live(id)) by {
                assert(is_raw(self.window_events[i]));
            }
            assert forall|i: int| 0 <= i < u.events.len() implies is_raw(#[trigger] u.events[i]) && (
            u.events[i].spec_window_id() matches Some(id) ==> u.is_live(id)) by {
                assert(is_raw(self.events[i]));
            }
            assert forall|i: int| 0 <= i < u.window_events.len() implies is_raw(
                #[trigger] u.window_events[i],
            ) && (u.window_events[i].spec_window_id() matches Some(id) ==> u.is_live(id)) by {
                if i < self.window_events.len() {
                    assert(is_raw(self.window_events[i]));
                }
            }
        }
    }
}

impl StateView {
    /// In a well-formed state nothing pending names a window that is not
    /// live.
    pub proof fn lemma_names(self, id: WindowId)
        requires
            self.wf(),
            !self.is_live(id),
        ensures
            !self.names(id),
    {
        if has_update(self.compositor_updates, id) {
            let i = choose|i: int|
                0 <= i < self.compositor_updates.len()
                    && #[trigger] self.compositor_updates[i].window_id == id;
            assert(self.is_live(self.compositor_updates[i].window_id));
        }
        if exists|i: int|
            0 <= i < self.events.len() && (#[trigger] self.events[i]).spec_window_id() == Some(id) {
            let i = choose|i: int|
                0 <= i < self.events.len() && (#[trigger] self.events[i]).spec_window_id() == Some(
                    id,
                );
            assert(is_raw(self.events[i]));
        }
        if exists|i: int|
            0 <= i < self.window_events.len() && (
            #[trigger] self.window_events[i]).spec_window_id() == Some(id) {
            let i = choose|i: int|
                0 <= i < self.window_events.len() && (
                #[trigger] self.window_events[i]).spec_window_id() == Some(id);
            assert(is_raw(self.window_events[i]));
        }
    }
}

impl StateView {
    /// Creating a window keeps the state well formed; the new window is the
    /// only one to become live, under an identity never given out before.
    pub proof fn lemma_create_window(self, size: LogicalSize)
        requires
            self.wf(),
        ensures
            self.create_window(size).wf(),
            forall|x: WindowId|
                #[trigger] self.create_window(size).is_live(x) == (self.is_live(x) || (
                self.next_window_id < u64::MAX && x == WindowId(self.next_window_id))),
            !self.is_live(WindowId(self.next_window_id)),
    {
        let t = self.create_window(size);
        if self.is_live(WindowId(self.next_window_id)) {
            let i = self.index_of(WindowId(self.next_window_id));
            assert(self.windows[i].id.0 < self.next_window_id);
        }
        if self.next_window_id < u64::MAX {
            let n = self.windows.len() as int;
            assert(t.windows[n].id == WindowId(self.next_window_id));
            assert forall|x: WindowId|
                #[trigger] t.is_live(x) == (self.is_live(x) || x == WindowId(
                    self.next_window_id,
                )) by {
                if self.is_live(x) {
                    assert(t.windows[self.index_of(x)].id == x);
                }
                if t.is_live(x) {
                    let i = t.index_of(x);
                    if i < n {
                        assert(self.windows[i].id == x);
                    }
                }
            }
            assert forall|i: int, j: int| 0 <= i < j < t.windows.len() implies #[trigger] t.windows[i].id
                != #[trigger] t.windows[j].id by {
                if j < n {
                    assert(self.windows[i].id != self.windows[j].id);
                } else {
                    assert(self.windows[i].id.0 < self.next_window_id);
                }
            }
            assert forall|i: int| 0 <= i < t.windows.len() implies (#[trigger] t.windows[i]).id.0
                < t.next_window_id && t.windows[i].window.wf() by {
                if i < n {
                    assert(self.windows[i].window.wf());
                }
            }
            assert forall|i: int| 0 <= i < t.compositor_updates.len() implies t.is_live(
                #[trigger] t.compositor_updates[i].window_id,
            ) by {
                assert(self.is_live(self.compositor_updates[i].window_id));
            }
            assert(t.events_ok(t.events)) by {
                assert forall|i: int| 0 <= i < t.events.len() implies is_raw(#[trigger] t.events[i])
                    && (t.events[i].spec_window_id() matches Some(id) ==> t.is_live(id)) by {
                    assert(is_raw(self.events[i]));
                }
            }
            assert(t.events_ok(t.window_events)) by {
                assert forall|i: int| 0 <= i < t.window_events.len() implies is_raw(
                    #[trigger] t.window_events[i],
                ) && (t.window_events[i].spec_window_id() matches Some(id) ==> t.is_live(id)) by {
                    assert(is_raw(self.window_events[i]));
                }
            }
        }
    }

    /// Changing the state or the requests of a live window keeps the state
    /// well formed and every window as live as it was.
    pub proof fn lemma_set_window(self, id: WindowId, window: WindowState)
        requires
            self.wf(),
            self.is_live(id),
            window.wf(),
        ensures
            self.set_window(id, window).wf(),
            forall|x: WindowId| #[trigger] self.set_window(id, window).is_live(x) == self.is_live(x),
            self.set_window(id, window).next_window_id == self.next_window_id,
            self.set_window(id, window).compositor_updates == self.compositor_updates,
    {
        self.lemma_replace_window(id, WindowEntry { window, ..self.entry(id) });
    }

    /// Changing the requests of a live window keeps the state well formed and
    /// every window as live as it was.
    pub proof fn lemma_set_requests(self, id: WindowId, requests: WindowRequests)
        requires
            self.wf(),
            self.is_live(id),
        ensures
            self.set_requests(id, requests).wf(),
            forall|x: WindowId|
                #[trigger] self.set_requests(id, requests).is_live(x) == self.is_live(x),
    {
        self.lemma_entry_at(self.index_of(id));
        self.lemma_replace_window(id, WindowEntry { requests, ..self.entry(id) });
    }

    /// States with the same windows have the same live windows.
    pub proof fn lemma_same_windows(self, t: StateView)
        requires
            t.windows == self.windows,
        ensures
            forall|x: WindowId| #[trigger] t.is_live(x) == self.is_live(x),
    {
        assert forall|x: WindowId| #[trigger] t.is_live(x) == self.is_live(x) by {
            if self.is_live(x) {
                assert(t.windows[self.index_of(x)].id == x);
            }
            if t.is_live(x) {
                assert(self.windows[t.index_of(x)].id == x);
            }
        }
    }

    /// Giving a live window a size keeps the state well formed and every
    /// window as live as it was.
    pub proof fn lemma_request_surface_size(self, id: WindowId, size: LogicalSize)
        requires
            self.wf(),
        ensures
            self.request_surface_size(id, size).wf(),
            forall|x: WindowId|
                #[trigger] self.request_surface_size(id, size).is_live(x) == self.is_live(x),
            self.request_surface_size(id, size).next_window_id == self.next_window_id,
    {
        if self.is_live(id) {
            self.lemma_entry_at(self.index_of(id));
            let w = self.entry(id).window;
            self.lemma_set_window(
                id,
                WindowState {
                    surface_size: size,
                    frame_dirty: w.frame_dirty || size != w.surface_size,
                    ..w
                },
            );
        }
    }
}

} // verus!
