//! The timed events of an automation, keyed by their id.
use crate::game_automation::types::TimedEvent;
use vstd::prelude::*;

verus! {

/// No two events share an id.
pub open spec fn ids_unique(s: Seq<TimedEvent>) -> bool {
    forall|i: int, j: int| 0 <= i < j < s.len() ==> s[i].id@ != s[j].id@
}

/// The events of `s` keyed by id.
pub open spec fn to_map(s: Seq<TimedEvent>) -> Map<Seq<char>, TimedEvent>
    decreases s.len(),
{
    if s.len() == 0 {
        Map::empty()
    } else {
        to_map(s.drop_last()).insert(s.last().id@, s.last())
    }
}

/// Position of the first event with this id (`s.len()` when none has it).
pub open spec fn id_index(s: Seq<TimedEvent>, id: Seq<char>) -> int
    decreases s.len(),
{
    if s.len() == 0 {
        0
    } else if s[0].id@ == id {
        0
    } else {
        1 + id_index(s.drop_first(), id)
    }
}

pub proof fn lemma_id_index(s: Seq<TimedEvent>, id: Seq<char>, i: int)
    requires
        0 <= i <= s.len(),
        forall|k: int| 0 <= k < i ==> s[k].id@ != id,
        i == s.len() || s[i].id@ == id,
    ensures
        id_index(s, id) == i,
    decreases s.len(),
{
    if s.len() > 0 && s[0].id@ != id {
        lemma_id_index(s.drop_first(), id, i - 1);
    }
}

pub proof fn lemma_to_map_lookup(s: Seq<TimedEvent>)
    requires
        ids_unique(s),
    ensures
        forall|k: Seq<char>|
            to_map(s).dom().contains(k) <==> exists|i: int| 0 <= i < s.len() && s[i].id@ == k,
        forall|i: int| 0 <= i < s.len() ==> #[trigger] to_map(s)[s[i].id@] == s[i],
    decreases s.len(),
{
    if s.len() > 0 {
        let p = s.drop_last();
        assert(ids_unique(p));
        lemma_to_map_lookup(p);
        assert forall|k: Seq<char>| to_map(s).dom().contains(k) implies exists|i: int|
            0 <= i < s.len() && s[i].id@ == k by {
            if k == s.last().id@ {
                assert(s[s.len() - 1].id@ == k);
            } else {
                assert(to_map(p).dom().contains(k));
                let i = choose|i: int| 0 <= i < p.len() && p[i].id@ == k;
                assert(s[i] == p[i]);
            }
        }
        assert forall|k: Seq<char>|
            (exists|i: int| 0 <= i < s.len() && s[i].id@ == k) implies to_map(
            s,
        ).dom().contains(k) by {
            let i = choose|i: int| 0 <= i < s.len() && s[i].id@ == k;
            if i < s.len() - 1 {
                assert(p[i] == s[i]);
                assert(to_map(p).dom().contains(k));
            }
        }
        assert forall|i: int| 0 <= i < s.len() implies #[trigger] to_map(s)[s[i].id@] == s[i] by {
            if i < s.len() - 1 {
                assert(p[i] == s[i]);
                assert(to_map(p)[p[i].id@] == p[i]);
                assert(s[i].id@ != s[s.len() - 1].id@);
            }
        }
    }
}

pub proof fn lemma_to_map_update(s: Seq<TimedEvent>, i: int, e: TimedEvent)
    requires
        ids_unique(s),
        0 <= i < s.len(),
        e.id@ == s[i].id@,
    ensures
        ids_unique(s.update(i, e)),
        to_map(s.update(i, e)) == to_map(s).insert(e.id@, e),
    decreases s.len(),
{
    let u = s.update(i, e);
    assert(ids_unique(u)) by {
        assert forall|a: int, b: int| 0 <= a < b < u.len() implies u[a].id@ != u[b].id@ by {
            assert(u[a].id@ == s[a].id@);
            assert(u[b].id@ == s[b].id@);
        }
    }
    if i == s.len() - 1 {
        assert(u.drop_last() =~= s.drop_last());
        assert(to_map(u) =~= to_map(s).insert(e.id@, e));
    } else {
        let p = s.drop_last();
        assert(ids_unique(p));
        lemma_to_map_update(p, i, e);
        assert(u.drop_last() =~= p.update(i, e));
        assert(u.last() == s.last());
        assert(s.last().id@ != e.id@);
        assert(to_map(u) =~= to_map(s).insert(e.id@, e));
    }
}

pub proof fn lemma_to_map_remove(s: Seq<TimedEvent>, i: int)
    requires
        ids_unique(s),
        0 <= i < s.len(),
    ensures
        ids_unique(s.remove(i)),
        to_map(s.remove(i)) == to_map(s).remove(s[i].id@),
    decreases s.len(),
{
    let r = s.remove(i);
    assert(ids_unique(r)) by {
        assert forall|a: int, b: int| 0 <= a < b < r.len() implies r[a].id@ != r[b].id@ by {
            let sa = if a < i {
                a
            } else {
                a + 1
            };
            let sb = if b < i {
                b
            } else {
                b + 1
            };
            assert(r[a] == s[sa]);
            assert(r[b] == s[sb]);
        }
    }
    let p = s.drop_last();
    assert(ids_unique(p));
    if i == s.len() - 1 {
        assert(r =~= p);
        lemma_to_map_lookup(p);
        assert(!to_map(p).dom().contains(s.last().id@)) by {
            if to_map(p).dom().contains(s.last().id@) {
                let j = choose|j: int| 0 <= j < p.len() && p[j].id@ == s.last().id@;
                assert(s[j] == p[j]);
            }
        }
        assert(to_map(r) =~= to_map(s).remove(s[i].id@));
    } else {
        lemma_to_map_remove(p, i);
        assert(r.drop_last() =~= p.remove(i));
        assert(r.last() == s.last());
        assert(s[i].id@ != s.last().id@);
        assert(to_map(r) =~= to_map(s).remove(s[i].id@));
    }
}

/// Timed events keyed by id: each id occurs at most once; events keep the
/// order in which their ids were first added.
pub struct TimedEvents {
    events: Vec<TimedEvent>,
}

impl View for TimedEvents {
    type V = Map<Seq<char>, TimedEvent>;

    closed spec fn view(&self) -> Map<Seq<char>, TimedEvent> {
        to_map(self.events@)
    }
}

impl TimedEvents {
    /// The events in order.
    pub closed spec fn items(&self) -> Seq<TimedEvent> {
        self.events@
    }

    pub closed spec fn wf(&self) -> bool {
        ids_unique(self.events@)
    }

    /// What the ordered events and the map say agree.
    pub proof fn lemma_items(&self)
        requires
            self.wf(),
        ensures
            ids_unique(self.items()),
            self@ == to_map(self.items()),
            forall|k: Seq<char>|
                self@.dom().contains(k) <==> exists|i: int|
                    0 <= i < self.items().len() && self.items()[i].id@ == k,
            forall|i: int|
                0 <= i < self.items().len() ==> #[trigger] self@[self.items()[i].id@]
                    == self.items()[i],
    {
        lemma_to_map_lookup(self.events@);
    }

    pub fn new() -> (r: Self)
        ensures
            r.wf(),
            r@ == Map::<Seq<char>, TimedEvent>::empty(),
            r.items().len() == 0,
    {
        TimedEvents { events: Vec::new() }
    }

    pub fn len(&self) -> (r: usize)
        requires
            self.wf(),
        ensures
            r == self.items().len(),
            r == self@.dom().len(),
    {
        proof {
            self.lemma_dom_len();
        }
        self.events.len()
    }

    proof fn lemma_dom_len(&self)
        requires
            self.wf(),
        ensures
            self@.dom().len() == self.items().len(),
            self@.dom().finite(),
    {
        lemma_dom_len_of(self.events@);
    }

    /// The events in order.
    pub fn as_slice(&self) -> (r: &[TimedEvent])
        ensures
            r@ == self.items(),
    {
        self.events.as_slice()
    }

    /// Position of the event with this id.
    fn position(&self, id: &str) -> (r: Option<usize>)
        requires
            self.wf(),
        ensures
            r matches Some(i) ==> i < self.items().len() && self.items()[i as int].id@ == id@
                && i == id_index(self.items(), id@),
            r is None ==> !self@.dom().contains(id@),
    {
        let want = crate::text::to_chars(id);
        let mut i: usize = 0;
        while i < self.events.len()
            invariant
                i <= self.events.len(),
                want@ == id@,
                forall|k: int| 0 <= k < i ==> self.events@[k].id@ != id@,
            decreases self.events.len() - i,
        {
            let have = crate::text::to_chars(self.events[i].id.as_str());
            if crate::text::eq_chars(&have, &want) {
                proof {
                    lemma_id_index(self.events@, id@, i as int);
                }
                return Some(i);
            }
            i += 1;
        }
        proof {
            lemma_to_map_lookup(self.events@);
        }
        None
    }

    pub fn contains(&self, id: &str) -> (r: bool)
        requires
            self.wf(),
        ensures
            r == self@.dom().contains(id@),
    {
        proof {
            lemma_to_map_lookup(self.events@);
        }
        self.position(id).is_some()
    }

    pub fn get(&self, id: &str) -> (r: Option<&TimedEvent>)
        requires
            self.wf(),
        ensures
            match r {
                Some(e) => self@.dom().contains(id@) && *e == self@[id@],
                None => !self@.dom().contains(id@),
            },
    {
        proof {
            lemma_to_map_lookup(self.events@);
        }
        match self.position(id) {
            Some(i) => Some(&self.events[i]),
            None => None,
        }
    }

    /// Adds the event, replacing the one with the same id if there is one
    /// (in its place).
    pub fn insert(&mut self, e: TimedEvent)
        requires
            old(self).wf(),
        ensures
            final(self).wf(),
            final(self)@ == old(self)@.insert(e.id@, e),
            old(self)@.dom().contains(e.id@) ==> final(self).items() == old(self).items().update(
                id_index(old(self).items(), e.id@),
                e,
            ),
            !old(self)@.dom().contains(e.id@) ==> final(self).items() == old(self).items().push(e),
    {
        proof {
            lemma_to_map_lookup(self.events@);
        }
        match self.position(e.id.as_str()) {
            Some(i) => {
                proof {
                    lemma_to_map_update(self.events@, i as int, e);
                }
                self.events.set(i, e);
            },
            None => {
                proof {
                    let s = self.events@.push(e);
                    assert(s.drop_last() =~= self.events@);
                    assert(ids_unique(s)) by {
                        assert forall|a: int, b: int| 0 <= a < b < s.len() implies s[a].id@
                            != s[b].id@ by {
                            if b == s.len() - 1 {
                                assert(s[a] == self.events@[a]);
                            } else {
                                assert(s[a] == self.events@[a] && s[b] == self.events@[b]);
                            }
                        }
                    }
                }
                self.events.push(e);
            },
        }
    }

    /// Removes the event with this id; tells whether there was one.
    pub fn remove(&mut self, id: &str) -> (r: bool)
        requires
            old(self).wf(),
        ensures
            final(self).wf(),
            r == old(self)@.dom().contains(id@),
            final(self)@ == old(self)@.remove(id@),
            r ==> final(self).items() == old(self).items().remove(id_index(old(self).items(), id@)),
            !r ==> final(self).items() == old(self).items(),
    {
        proof {
            lemma_to_map_lookup(self.events@);
        }
        match self.position(id) {
            Some(i) => {
                proof {
                    lemma_to_map_remove(self.events@, i as int);
                }
                self.events.remove(i);
                true
            },
            None => {
                assert(old(self)@.remove(id@) =~= old(self)@);
                false
            },
        }
    }

    /// Enables or disables the event with this id; tells whether there was
    /// one.
    pub fn set_enabled(&mut self, id: &str, enabled: bool) -> (r: bool)
        requires
            old(self).wf(),
        ensures
            final(self).wf(),
            r == old(self)@.dom().contains(id@),
            r ==> final(self)@ == old(self)@.insert(
                id@,
                TimedEvent { enabled, ..old(self)@[id@] },
            ),
            !r ==> final(self)@ == old(self)@,
            r ==> final(self).items() == old(self).items().update(
                id_index(old(self).items(), id@),
                TimedEvent { enabled, ..old(self)@[id@] },
            ),
            !r ==> final(self).items() == old(self).items(),
    {
        proof {
            lemma_to_map_lookup(self.events@);
        }
        match self.position(id) {
            Some(i) => {
                let mut e = self.events[i].clone();
                e.enabled = enabled;
                proof {
                    lemma_to_map_update(self.events@, i as int, e);
                }
                self.events.set(i, e);
                true
            },
            None => false,
        }
    }

    /// Records a run at `now` of the event with this id (one that has run
    /// `u64::MAX` times is left as it is); tells whether there was one.
    pub fn mark_executed_at(&mut self, id: &str, now: u64) -> (r: bool)
        requires
            old(self).wf(),
        ensures
            final(self).wf(),
            r == old(self)@.dom().contains(id@),
            r && old(self)@[id@].execution_count < u64::MAX ==> final(self)@ == old(self)@.insert(
                id@,
                TimedEvent {
                    last_executed: Some(now),
                    execution_count: (old(self)@[id@].execution_count + 1) as u64,
                    ..old(self)@[id@]
                },
            ),
            !(r && old(self)@[id@].execution_count < u64::MAX) ==> final(self)@ == old(self)@,
            r && old(self)@[id@].execution_count < u64::MAX ==> final(self).items()
                == old(self).items().update(
                id_index(old(self).items(), id@),
                TimedEvent {
                    last_executed: Some(now),
                    execution_count: (old(self)@[id@].execution_count + 1) as u64,
                    ..old(self)@[id@]
                },
            ),
            !(r && old(self)@[id@].execution_count < u64::MAX) ==> final(self).items() == old(
                self,
            ).items(),
    {
        proof {
            lemma_to_map_lookup(self.events@);
        }
        match self.position(id) {
            Some(i) => {
                if self.events[i].execution_count < u64::MAX {
                    let mut e = self.events[i].clone();
                    e.mark_executed_at(now);
                    proof {
                        lemma_to_map_update(self.events@, i as int, e);
                    }
                    self.events.set(i, e);
                }
                true
            },
            None => false,
        }
    }

    /// Gives the event with this id a new interval, counted from `now`;
    /// tells whether there was one.
    pub fn set_interval_at(&mut self, id: &str, interval: u128, now: u64) -> (r: bool)
        requires
            old(self).wf(),
        ensures
            final(self).wf(),
            r == old(self)@.dom().contains(id@),
            r ==> final(self)@ == old(self)@.insert(
                id@,
                TimedEvent { interval, last_executed: Some(now), ..old(self)@[id@] },
            ),
            !r ==> final(self)@ == old(self)@,
            r ==> final(self).items() == old(self).items().update(
                id_index(old(self).items(), id@),
                TimedEvent { interval, last_executed: Some(now), ..old(self)@[id@] },
            ),
            !r ==> final(self).items() == old(self).items(),
    {
        proof {
            lemma_to_map_lookup(self.events@);
        }
        match self.position(id) {
            Some(i) => {
                let mut e = self.events[i].clone();
                e.set_interval_at(interval, now);
                proof {
                    lemma_to_map_update(self.events@, i as int, e);
                }
                self.events.set(i, e);
                true
            },
            None => false,
        }
    }

    /// Copies of all events, in order.
    pub fn values(&self) -> (r: Vec<TimedEvent>)
        ensures
            r@ == self.items(),
    {
        let mut out: Vec<TimedEvent> = Vec::new();
        let mut i: usize = 0;
        while i < self.events.len()
            invariant
                i <= self.events.len(),
                out@ == self.events@.take(i as int),
            decreases self.events.len() - i,
        {
            out.push(self.events[i].clone());
            assert(out@ =~= self.events@.take(i + 1));
            i += 1;
        }
        assert(self.events@.take(self.events@.len() as int) =~= self.events@);
        out
    }
}

pub proof fn lemma_dom_len_of(s: Seq<TimedEvent>)
    requires
        ids_unique(s),
    ensures
        to_map(s).dom().finite(),
        to_map(s).dom().len() == s.len(),
    decreases s.len(),
{
    if s.len() > 0 {
        let p = s.drop_last();
        assert(ids_unique(p));
        lemma_dom_len_of(p);
        lemma_to_map_lookup(p);
        assert(!to_map(p).dom().contains(s.last().id@)) by {
            if to_map(p).dom().contains(s.last().id@) {
                let j = choose|j: int| 0 <= j < p.len() && p[j].id@ == s.last().id@;
                assert(s[j] == p[j]);
            }
        }
    }
}

} // verus!
