use vstd::prelude::*;

verus! {

/// A queue of events of one type, kept over two ticks.
///
/// Events published during one tick sit in `newer`; at the tick boundary
/// (`update`) they move to `older`, and what was in `older` is dropped. Every
/// event carries a sequence number: the events of `older` are numbered from
/// `older_start`, those of `newer` follow on from them.
pub struct EventBus<T> {
    pub older: Vec<T>,
    pub older_start: u64,
    pub newer: Vec<T>,
}

/// A consumer's read position in an `EventBus`: the sequence number of the
/// first event it has not seen yet.
#[derive(Clone, Copy, Debug, PartialEq, Eq, Structural)]
pub struct EventCursor {
    pub next: u64,
}

impl EventCursor {
    /// A cursor that has seen nothing.
    pub fn new() -> (c: EventCursor)
        ensures
            c.next == 0,
    {
        EventCursor { next: 0 }
    }
}

impl<T: Copy> EventBus<T> {
    pub open spec fn wf(self) -> bool {
        self.older_start + self.older@.len() + self.newer@.len() <= u64::MAX
    }

    /// Sequence number of the first event of `newer`.
    pub open spec fn newer_start(self) -> int {
        self.older_start + self.older@.len()
    }

    /// Sequence number that the next published event will get.
    pub open spec fn count(self) -> int {
        self.newer_start() + self.newer@.len()
    }

    /// Every event still visible, oldest first.
    pub open spec fn visible(self) -> Seq<T> {
        self.older@ + self.newer@
    }

    /// The visible events whose sequence number is at least `from`.
    pub open spec fn unread_from(self, from: int) -> Seq<T> {
        let skip = if from <= self.older_start {
            0
        } else if from >= self.count() {
            self.visible().len() as int
        } else {
            from - self.older_start
        };
        self.visible().subrange(skip, self.visible().len() as int)
    }

    /// `after` is this bus once a tick ended: this tick's events became the
    /// older ones and the older ones were dropped.
    pub open spec fn moved_on(self, after: Self) -> bool {
        &&& after.wf()
        &&& after.older@ == self.newer@
        &&& after.older_start == self.newer_start()
        &&& after.newer@ == Seq::<T>::empty()
    }

    /// How many more events can still be numbered.
    pub open spec fn room(self) -> int {
        u64::MAX - self.count()
    }

    /// The events of `evs` that the bus takes: all of them while sequence
    /// numbers last.
    pub open spec fn admitted(self, evs: Seq<T>) -> Seq<T> {
        if evs.len() <= self.room() {
            evs
        } else {
            evs.take(self.room())
        }
    }

    /// `after` is this bus once `evs` have been published, in order.
    pub open spec fn sent(self, after: Self, evs: Seq<T>) -> bool {
        &&& after.wf()
        &&& after.older@ == self.older@
        &&& after.older_start == self.older_start
        &&& after.newer@ == self.newer@ + self.admitted(evs)
    }

    /// Publishing nothing leaves the bus as it is.
    pub proof fn lemma_sent_nothing(self)
        requires
            self.wf(),
        ensures
            self.sent(self, Seq::empty()),
    {
        assert(self.newer@ + self.admitted(Seq::empty()) =~= self.newer@);
    }

    /// Publishing `evs` and then `more` is publishing `evs + more`.
    pub proof fn lemma_sent_chain(self, mid: Self, last: Self, evs: Seq<T>, more: Seq<T>)
        requires
            self.wf(),
            self.sent(mid, evs),
            mid.sent(last, more),
        ensures
            self.sent(last, evs + more),
    {
        if evs.len() + more.len() <= self.room() {
            assert(self.admitted(evs + more) =~= evs + more);
        } else if evs.len() <= self.room() {
            assert(self.admitted(evs + more) =~= evs + more.take(self.room() - evs.len()));
        } else {
            assert(mid.room() == 0);
            assert(mid.admitted(more) =~= Seq::<T>::empty());
            assert(self.admitted(evs + more) =~= evs.take(self.room()));
        }
        assert(last.newer@ =~= self.newer@ + self.admitted(evs + more));
    }

    /// A reader that has caught up with the bus has nothing left to read: no
    /// event is seen twice by one reader.
    pub proof fn lemma_caught_up(self)
        requires
            self.wf(),
        ensures
            self.unread_from(self.count()) == Seq::<T>::empty(),
    {
        assert(self.unread_from(self.count()) =~= Seq::<T>::empty());
    }

    /// Across a tick boundary, a reader that has not yet seen some events of
    /// the tick that ends still sees exactly those events.
    pub proof fn lemma_update_keeps_unread(self, after: Self, from: int)
        requires
            self.wf(),
            after.older@ == self.newer@,
            after.older_start == self.newer_start(),
            after.newer@ == Seq::<T>::empty(),
            self.newer_start() <= from,
        ensures
            after.unread_from(from) == self.unread_from(from),
    {
        assert(after.visible() =~= self.newer@);
        assert(after.unread_from(from) =~= self.unread_from(from));
    }

    pub fn new() -> (b: EventBus<T>)
        ensures
            b.wf(),
            b.visible() == Seq::<T>::empty(),
            b.older_start == 0,
            b.count() == 0,
    {
        EventBus { older: Vec::new(), older_start: 0, newer: Vec::new() }
    }

    /// Appends an event to the current tick's buffer.
    /// Once `u64::MAX` events have been numbered, further events are dropped.
    pub fn publish(&mut self, event: T)
        requires
            old(self).wf(),
        ensures
            old(self).sent(*final(self), seq![event]),
    {
        let n = self.event_count();
        if n < u64::MAX {
            self.newer.push(event);
            assert(old(self).admitted(seq![event]) =~= seq![event]);
        } else {
            assert(old(self).admitted(seq![event]) =~= Seq::<T>::empty());
        }
        assert(self.newer@ =~= old(self).newer@ + old(self).admitted(seq![event]));
    }

    /// Sequence number that the next published event will get.
    pub fn event_count(&self) -> (n: u64)
        requires
            self.wf(),
        ensures
            n == self.count(),
    {
        self.older_start + self.older.len() as u64 + self.newer.len() as u64
    }

    /// Every visible event that `cursor` has not seen, oldest first; the
    /// cursor then points past the newest event.
    pub fn drain(&self, cursor: &mut EventCursor) -> (r: Vec<T>)
        requires
            self.wf(),
        ensures
            r@ == self.unread_from(old(cursor).next as int),
            final(cursor).next == self.count(),
    {
        let newer_start = self.older_start + self.older.len() as u64;
        let mut r: Vec<T> = Vec::new();
        let mut i: usize = if cursor.next <= self.older_start {
            0
        } else if cursor.next >= newer_start {
            self.older.len()
        } else {
            (cursor.next - self.older_start) as usize
        };
        let first = i;
        while i < self.older.len()
            invariant
                first <= i <= self.older@.len(),
                r@ == self.older@.subrange(first as int, i as int),
            decreases self.older@.len() - i,
        {
            r.push(self.older[i]);
            i = i + 1;
            proof {
                assert(self.older@.subrange(first as int, i as int) =~= self.older@.subrange(
                    first as int,
                    i - 1,
                ).push(self.older@[i - 1]));
            }
        }
        let mut j: usize = if cursor.next <= newer_start {
            0
        } else if cursor.next - newer_start >= self.newer.len() as u64 {
            self.newer.len()
        } else {
            (cursor.next - newer_start) as usize
        };
        let second = j;
        while j < self.newer.len()
            invariant
                second <= j <= self.newer@.len(),
                r@ == self.older@.subrange(first as int, self.older@.len() as int)
                    + self.newer@.subrange(second as int, j as int),
            decreases self.newer@.len() - j,
        {
            r.push(self.newer[j]);
            j = j + 1;
            proof {
                assert(self.newer@.subrange(second as int, j as int) =~= self.newer@.subrange(
                    second as int,
                    j - 1,
                ).push(self.newer@[j - 1]));
            }
        }
        proof {
            let vis = self.visible();
            let skip = if cursor.next <= self.older_start {
                0
            } else if cursor.next >= self.count() {
                vis.len() as int
            } else {
                cursor.next - self.older_start
            };
            assert(r@ =~= vis.subrange(skip, vis.len() as int));
        }
        cursor.next = newer_start + self.newer.len() as u64;
        r
    }

    /// Ends a tick: the events of the tick that is ending stay visible for
    /// one more tick, older ones are dropped.
    pub fn update(&mut self)
        requires
            old(self).wf(),
        ensures
            final(self).wf(),
            final(self).older@ == old(self).newer@,
            final(self).older_start == old(self).newer_start(),
            final(self).newer@ == Seq::<T>::empty(),
            final(self).count() == old(self).count(),
    {
        let start = self.older_start + self.older.len() as u64;
        std::mem::swap(&mut self.older, &mut self.newer);
        self.newer = Vec::new();
        self.older_start = start;
    }
}

} // verus!

verus! {

/// A projectile struck the enemy with handle `ent` for `dmg` points.
#[derive(Clone, Copy, Debug, PartialEq, Eq, Structural)]
pub struct HitEv {
    pub dmg: u64,
    pub ent: u64,
}

/// An enemy struck the player for the given number of points.
#[derive(Clone, Copy, Debug, PartialEq, Eq, Structural)]
pub struct HitPlayerEv(pub u64);

/// The enemy with the given handle lost its last point of health.
#[derive(Clone, Copy, Debug, PartialEq, Eq, Structural)]
pub struct EnemyDeathEv(pub u64);

/// The player lost its last point of health.
#[derive(Clone, Copy, Debug, PartialEq, Eq, Structural)]
pub struct GameOver;

} // verus!
