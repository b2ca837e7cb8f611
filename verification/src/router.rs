use vstd::prelude::*;
use crate::grid::Delta;
use crate::state::State;

verus! {

/// Maps opaque input-source identities (given to the library as stable
/// integer keys) to roster indices, assigned in first-seen order from 0.
pub struct Router {
    /// The distinct source keys seen so far, in first-seen order; a source's
    /// roster index is its position here.
    pub sources: Vec<u64>,
}

impl Router {
    /// Well-formedness: every source key is mapped to exactly one slot.
    pub open spec fn wf(self) -> bool {
        self.sources@.no_duplicates()
    }

    /// A router that has seen no sources.
    pub fn new() -> (r: Router)
        ensures
            r.wf(),
            r.sources@.len() == 0,
    {
        Router { sources: Vec::new() }
    }

    /// Number of distinct sources seen so far.
    pub fn len(&self) -> (n: usize)
        ensures
            n == self.sources@.len(),
    {
        self.sources.len()
    }

    /// The roster index of `source`, assigning the next free index on first
    /// sight. Indices are stable: known sources keep theirs, a new source
    /// gets the old mapping size.
    pub fn index_for(&mut self, source: u64) -> (i: usize)
        requires
            old(self).wf(),
        ensures
            final(self).wf(),
            i < final(self).sources@.len(),
            final(self).sources@[i as int] == source,
            old(self).sources@.contains(source) ==> final(self).sources@ == old(self).sources@
                && old(self).sources@[i as int] == source,
            !old(self).sources@.contains(source) ==> final(self).sources@ == old(
                self,
            ).sources@.push(source) && i == old(self).sources@.len(),
    {
        let n = self.sources.len();
        let mut k: usize = 0;
        while k < n
            invariant
                n == self.sources@.len(),
                k <= n,
                *self == *old(self),
                self.wf(),
                forall|t: int| 0 <= t < k ==> self.sources@[t] != source,
            decreases n - k,
        {
            if self.sources[k] == source {
                return k;
            }
            k = k + 1;
        }
        assert(!self.sources@.contains(source));
        self.sources.push(source);
        proof {
            assert(self.sources@[n as int] == source);
            assert forall|t: int, u: int|
                0 <= t < u < self.sources@.len() implies self.sources@[t] != self.sources@[u] by {
                if u < n {
                    assert(old(self).sources@[t] != old(self).sources@[u]);
                } else {
                    assert(old(self).sources@[t] == self.sources@[t]);
                }
            }
        }
        n
    }

    /// Routes one input event: maps the source to its roster slot, growing
    /// the roster on first sight so that it always covers every source seen,
    /// and applies a directional intent, if any, to that snake's heading.
    /// Events without a direction only register the source.
    pub fn handle_event(&mut self, state: &mut State, source: u64, dir: Option<Delta>)
        requires
            old(self).wf(),
            old(state).wf(),
            old(state).snakes@.len() >= old(self).sources@.len(),
            match dir {
                Some(d) => d.is_cardinal(),
                None => true,
            },
        ensures
            final(self).wf(),
            final(state).wf(),
            final(state).snakes@.len() >= final(self).sources@.len(),
            final(self).sources@ == if old(self).sources@.contains(source) {
                old(self).sources@
            } else {
                old(self).sources@.push(source)
            },
            final(state).snakes@.len() >= old(state).snakes@.len(),
            final(state).fruit == old(state).fruit,
            exists|i: int|
                {
                    &&& 0 <= i < final(self).sources@.len()
                    &&& final(self).sources@[i] == source
                    &&& forall|k: int|
                        0 <= k < final(state).snakes@.len() && k != i
                            && k < old(state).snakes@.len() ==> final(state).snakes@[k] == old(
                            state,
                        ).snakes@[k]
                    &&& match dir {
                        Some(d) => i < old(state).snakes@.len() ==> {
                            let s = final(state).snakes@[i];
                            let o = old(state).snakes@[i];
                            s.body@ == o.body@ && s.color == o.color && s.dir == d
                        },
                        None => i < old(state).snakes@.len() ==> final(state).snakes@[i] == old(
                            state,
                        ).snakes@[i],
                    }
                },
    {
        let was_len = self.sources.len();
        let i = self.index_for(source);
        if self.sources.len() > was_len {
            state.ensure_snakes(self.sources.len());
        }
        match dir {
            Some(d) => {
                let s = state.snake_mut(i);
                s.rotate_head(d);

            },
            None => {},
        }
    }
}

} // verus!
