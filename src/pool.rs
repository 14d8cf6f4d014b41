use vstd::prelude::*;

verus! {

/// Two decoder sessions, one of them active. Rotation replaces the dormant
/// one with a freshly built session and only then makes it the active one,
/// so a decode is always routed to a session that is fully in place.
pub struct RecognizerPool<D> {
    slots: Vec<D>,
    active: usize,
}

impl<D> RecognizerPool<D> {
    pub closed spec fn sessions(&self) -> Seq<D> {
        self.slots@
    }

    pub closed spec fn active_spec(&self) -> int {
        self.active as int
    }

    /// Exactly two slots, and the active index names one of them.
    pub closed spec fn wf(&self) -> bool {
        self.slots@.len() == 2 && self.active < 2
    }

    /// A pool of `first` and `second`, with `first` active.
    pub fn new(first: D, second: D) -> (r: RecognizerPool<D>)
        ensures
            r.wf(),
            r.active_spec() == 0,
            r.sessions() == seq![first, second],
    {
        let mut slots: Vec<D> = Vec::new();
        slots.push(first);
        slots.push(second);
        assert(slots@ =~= seq![first, second]);
        RecognizerPool { slots, active: 0 }
    }

    /// The index of the session that decodes.
    pub fn active_index(&self) -> (r: usize)
        requires
            self.wf(),
        ensures
            r == self.active_spec(),
            r < 2,
    {
        self.active
    }

    /// The index of the dormant session, the one that rotation replaces.
    pub fn inactive_index(&self) -> (r: usize)
        requires
            self.wf(),
        ensures
            r == 1 - self.active_spec(),
            r < 2,
    {
        1 - self.active
    }

    /// The session in slot `i`.
    pub fn session(&self, i: usize) -> (r: &D)
        requires
            self.wf(),
            i < 2,
        ensures
            *r == self.sessions()[i as int],
    {
        &self.slots[i]
    }

    /// The active session, for a decode or a reset.
    pub fn active_mut(&mut self) -> (r: &mut D)
        requires
            old(self).wf(),
        ensures
            *r == old(self).sessions()[old(self).active_spec()],
            final(self).wf(),
            final(self).active_spec() == old(self).active_spec(),
            final(self).sessions() == old(self).sessions().update(
                old(self).active_spec(),
                *final(r),
            ),
    {
        &mut self.slots[self.active]
    }

    /// Puts `fresh` in place of the dormant session, then makes it the active
    /// one. The session that was active stays as it was.
    pub fn install(&mut self, fresh: D)
        requires
            old(self).wf(),
        ensures
            final(self).wf(),
            final(self).active_spec() == 1 - old(self).active_spec(),
            final(self).sessions() == old(self).sessions().update(
                1 - old(self).active_spec(),
                fresh,
            ),
    {
        let inactive: usize = 1 - self.active;
        self.slots.set(inactive, fresh);
        self.active = inactive;
    }

    /// One tick of the rotation timer, given the outcome of building a new
    /// session outside any lock: with a session, it is installed; without
    /// one the cycle is skipped and the pool is unchanged. Returns whether
    /// the pool rotated.
    pub fn rotate(&mut self, fresh: Option<D>) -> (r: bool)
        requires
            old(self).wf(),
        ensures
            final(self).wf(),
            r == fresh is Some,
            match fresh {
                Some(d) => {
                    &&& final(self).active_spec() == 1 - old(self).active_spec()
                    &&& final(self).sessions() == old(self).sessions().update(
                        1 - old(self).active_spec(),
                        d,
                    )
                },
                None => {
                    &&& final(self).active_spec() == old(self).active_spec()
                    &&& final(self).sessions() == old(self).sessions()
                },
            },
    {
        match fresh {
            Some(d) => {
                self.install(d);
                true
            },
            None => false,
        }
    }
}

/// A rotation leaves the session that was active untouched, so a decode
/// submitted before it completes against that session; and the session that
/// becomes active is exactly the one that was built, so a decode submitted
/// after it completes against that complete session. Either way the decode
/// meets a session that is in place in the pool.
pub proof fn lemma_rotation_routes_to_whole_session<D>(
    before: RecognizerPool<D>,
    after: RecognizerPool<D>,
    fresh: D,
)
    requires
        before.wf(),
        after.wf(),
        after.active_spec() == 1 - before.active_spec(),
        after.sessions() == before.sessions().update(1 - before.active_spec(), fresh),
    ensures
        after.sessions()[before.active_spec()] == before.sessions()[before.active_spec()],
        after.sessions()[after.active_spec()] == fresh,
        0 <= after.active_spec() < 2,
        before.active_spec() != after.active_spec(),
{
}

} // verus!
