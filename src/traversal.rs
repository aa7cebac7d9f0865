use vstd::prelude::*;

verus! {

/// What became of a URL handed to the controller.
#[derive(Clone, Copy, Debug, PartialEq, Eq, Structural)]
pub enum Discovery {
    /// Seen before in this traversal: nothing is done.
    AlreadyVisited,
    /// Recorded as visited but deeper than the bound: never fetched.
    TooDeep,
    /// Recorded as visited and queued for a fetch.
    Queued,
}

/// A fetch that the controller has queued or admitted.
#[derive(Clone, Debug, PartialEq, Eq)]
pub struct Job {
    pub url: String,
    pub depth: usize,
}

/// State of one crawl: the URLs seen, the fetches waiting for a slot, and the
/// number of fetches in flight, which never exceeds the admission capacity.
pub struct Traversal {
    visited: Vec<String>,
    pending: Vec<Job>,
    in_flight: usize,
    fetched: usize,
    max_depth: usize,
    max_concurrent: usize,
}

impl Traversal {
    /// The URLs recorded as visited, in the order they were first seen.
    pub closed spec fn visited_seq(&self) -> Seq<Seq<char>> {
        self.visited@.map_values(|s: String| s@)
    }

    /// The queued fetches, oldest first: URL and depth.
    pub closed spec fn pending_seq(&self) -> Seq<(Seq<char>, usize)> {
        self.pending@.map_values(|j: Job| (j.url@, j.depth))
    }

    pub closed spec fn in_flight_spec(&self) -> usize {
        self.in_flight
    }

    pub closed spec fn fetched_spec(&self) -> usize {
        self.fetched
    }

    pub closed spec fn max_depth_spec(&self) -> usize {
        self.max_depth
    }

    pub closed spec fn max_concurrent_spec(&self) -> usize {
        self.max_concurrent
    }

    pub closed spec fn wf(&self) -> bool {
        &&& self.visited_seq().no_duplicates()
        &&& self.in_flight <= self.max_concurrent
        &&& forall|i: int|
            0 <= i < self.pending_seq().len() ==> {
                &&& (#[trigger] self.pending_seq()[i]).1 <= self.max_depth
                &&& self.visited_seq().contains(self.pending_seq()[i].0)
            }
        &&& self.fetched + self.in_flight + self.pending@.len() <= self.visited@.len()
    }

    /// A traversal that has seen nothing, with a depth bound and a capacity
    /// for fetches in flight.
    pub fn new(max_depth: usize, max_concurrent: usize) -> (t: Traversal)
        ensures
            t.wf(),
            t.visited_seq() == Seq::<Seq<char>>::empty(),
            forall|u: Seq<char>| !t.visited_seq().contains(u),
            t.pending_seq() == Seq::<(Seq<char>, usize)>::empty(),
            t.in_flight_spec() == 0,
            t.fetched_spec() == 0,
            t.max_depth_spec() == max_depth,
            t.max_concurrent_spec() == max_concurrent,
    {
        let t = Traversal {
            visited: Vec::new(),
            pending: Vec::new(),
            in_flight: 0,
            fetched: 0,
            max_depth,
            max_concurrent,
        };
        assert(t.visited_seq() =~= Seq::<Seq<char>>::empty());
        assert(t.pending_seq() =~= Seq::<(Seq<char>, usize)>::empty());
        t
    }

    /// Whether `url` has been recorded as visited.
    pub fn is_visited(&self, url: &str) -> (r: bool)
        ensures
            r == self.visited_seq().contains(url@),
    {
        let key = String::from_str(url);
        let n = self.visited.len();
        let mut i: usize = 0;
        while i < n
            invariant
                n == self.visited@.len(),
                i <= n,
                key@ == url@,
                forall|j: int| 0 <= j < i ==> self.visited_seq()[j] != url@,
            decreases n - i,
        {
            if self.visited[i] == key {
                assert(self.visited_seq()[i as int] == url@);
                return true;
            }
            i = i + 1;
        }
        false
    }

    /// Hands the controller a URL found at `depth`. A URL seen before is
    /// ignored. Otherwise it is recorded as visited, before any fetch of it,
    /// and queued if `depth` is within the bound.
    pub fn discover(&mut self, url: &str, depth: usize) -> (r: Discovery)
        requires
            old(self).wf(),
        ensures
            final(self).wf(),
            final(self).in_flight_spec() == old(self).in_flight_spec(),
            final(self).fetched_spec() == old(self).fetched_spec(),
            final(self).max_depth_spec() == old(self).max_depth_spec(),
            final(self).max_concurrent_spec() == old(self).max_concurrent_spec(),
            final(self).visited_seq().contains(url@),
            forall|u: Seq<char>| #[trigger] final(self).visited_seq().contains(u)
                <==> (old(self).visited_seq().contains(u) || u == url@),
            old(self).visited_seq().contains(url@) ==> {
                &&& r == Discovery::AlreadyVisited
                &&& final(self).visited_seq() == old(self).visited_seq()
                &&& final(self).pending_seq() == old(self).pending_seq()
            },
            !old(self).visited_seq().contains(url@) ==> {
                &&& final(self).visited_seq() == old(self).visited_seq().push(url@)
                &&& depth > old(self).max_depth_spec() ==> r == Discovery::TooDeep
                    && final(self).pending_seq() == old(self).pending_seq()
                &&& depth <= old(self).max_depth_spec() ==> r == Discovery::Queued
                    && final(self).pending_seq() == old(self).pending_seq().push((url@, depth))
            },
    {
        if self.is_visited(url) {
            assert(self.visited_seq() == old(self).visited_seq());
            return Discovery::AlreadyVisited;
        }
        let key = String::from_str(url);
        let ghost old_visited = self.visited_seq();
        let ghost old_pending = self.pending_seq();
        self.visited.push(key.clone());
        assert(self.visited_seq() =~= old_visited.push(url@));
        assert(self.pending_seq() =~= old_pending);
        assert(self.visited_seq().no_duplicates()) by {
            assert forall|i: int, j: int|
                0 <= i < self.visited_seq().len() && 0 <= j < self.visited_seq().len() && i != j
                implies self.visited_seq()[i] != self.visited_seq()[j] by {
                if i == old_visited.len() as int {
                    assert(!old_visited.contains(url@));
                    assert(self.visited_seq()[j] == old_visited[j]);
                } else if j == old_visited.len() as int {
                    assert(self.visited_seq()[i] == old_visited[i]);
                }
            }
        }
        assert(self.visited_seq()[old_visited.len() as int] == url@);
        assert forall|u: Seq<char>| #[trigger] self.visited_seq().contains(u)
            <==> (old_visited.contains(u) || u == url@) by {
            if old_visited.contains(u) {
                let k = choose|k: int| 0 <= k < old_visited.len() && old_visited[k] == u;
                assert(self.visited_seq()[k] == u);
            }
        }
        assert forall|i: int| 0 <= i < self.pending_seq().len() implies
            self.visited_seq().contains(#[trigger] self.pending_seq()[i].0) by {
            let k = choose|k: int| 0 <= k < old_visited.len() && old_visited[k] == old_pending[i].0;
            assert(self.visited_seq()[k] == old_visited[k]);
        }
        if depth > self.max_depth {
            return Discovery::TooDeep;
        }
        self.pending.push(Job { url: key, depth });
        assert(self.pending_seq() =~= old_pending.push((url@, depth)));
        assert(self.visited_seq()[old_visited.len() as int] == url@);
        Discovery::Queued
    }

    /// Admits the oldest queued fetch if a slot is free; the slot
    /// stays taken until `finish_job`.
    pub fn next_job(&mut self) -> (r: Option<Job>)
        requires
            old(self).wf(),
        ensures
            final(self).wf(),
            final(self).visited_seq() == old(self).visited_seq(),
            final(self).fetched_spec() == old(self).fetched_spec(),
            final(self).max_depth_spec() == old(self).max_depth_spec(),
            final(self).max_concurrent_spec() == old(self).max_concurrent_spec(),
            (old(self).in_flight_spec() < old(self).max_concurrent_spec()
                && old(self).pending_seq().len() > 0) ==> {
                &&& r is Some
                &&& (r->Some_0.url@, r->Some_0.depth) == old(self).pending_seq()[0]
                &&& r->Some_0.depth <= old(self).max_depth_spec()
                &&& final(self).pending_seq() == old(self).pending_seq().drop_first()
                &&& final(self).in_flight_spec() == old(self).in_flight_spec() + 1
            },
            !(old(self).in_flight_spec() < old(self).max_concurrent_spec()
                && old(self).pending_seq().len() > 0) ==> {
                &&& r is None
                &&& final(self).pending_seq() == old(self).pending_seq()
                &&& final(self).in_flight_spec() == old(self).in_flight_spec()
            },
    {
        if self.in_flight >= self.max_concurrent || self.pending.len() == 0 {
            return None;
        }
        let ghost old_pending = self.pending_seq();
        let job = self.pending.remove(0);
        assert(self.pending_seq() =~= old_pending.drop_first());
        assert(old_pending[0] == (job.url@, job.depth));
        assert forall|i: int| 0 <= i < self.pending_seq().len() implies
            (#[trigger] self.pending_seq()[i]).1 <= self.max_depth
            && self.visited_seq().contains(self.pending_seq()[i].0) by {
            assert(self.pending_seq()[i] == old_pending[i + 1]);
        }
        self.in_flight = self.in_flight + 1;
        Some(job)
    }

    /// Releases the slot of a fetch that has ended, counting it when it succeeded.
    pub fn finish_job(&mut self, succeeded: bool)
        requires
            old(self).wf(),
            old(self).in_flight_spec() > 0,
        ensures
            final(self).wf(),
            final(self).visited_seq() == old(self).visited_seq(),
            final(self).pending_seq() == old(self).pending_seq(),
            final(self).max_depth_spec() == old(self).max_depth_spec(),
            final(self).max_concurrent_spec() == old(self).max_concurrent_spec(),
            final(self).in_flight_spec() == old(self).in_flight_spec() - 1,
            final(self).fetched_spec() == old(self).fetched_spec() + if succeeded { 1int } else { 0int },
    {
        let seen = self.visited.len();
        assert(self.fetched + 1 <= seen);
        self.in_flight = self.in_flight - 1;
        if succeeded {
            self.fetched = self.fetched + 1;
        }
        assert(self.pending_seq() == old(self).pending_seq());
        assert(self.visited_seq() == old(self).visited_seq());
    }

    /// Number of URLs recorded as visited.
    pub fn visited_count(&self) -> (n: usize)
        ensures
            n == self.visited_seq().len(),
    {
        self.visited.len()
    }

    /// Number of fetches that ended in success.
    pub fn fetched(&self) -> (n: usize)
        ensures
            n == self.fetched_spec(),
    {
        self.fetched
    }

    /// Number of fetches admitted and not yet finished.
    pub fn in_flight(&self) -> (n: usize)
        ensures
            n == self.in_flight_spec(),
    {
        self.in_flight
    }

    /// Number of fetches waiting for a slot.
    pub fn pending_count(&self) -> (n: usize)
        ensures
            n == self.pending_seq().len(),
    {
        self.pending.len()
    }

    /// Whether nothing is queued and nothing is in flight.
    pub fn is_done(&self) -> (r: bool)
        ensures
            r == (self.pending_seq().len() == 0 && self.in_flight_spec() == 0),
    {
        self.pending.len() == 0 && self.in_flight == 0
    }
}

/// However often a URL is handed to the controller, it is recorded as
/// visited at most once.
pub proof fn law_visited_once(t: &Traversal)
    requires
        t.wf(),
    ensures
        t.visited_seq().no_duplicates(),
{
}

/// No fetch waiting for a slot, and so none admitted, is deeper than the bound.
pub proof fn law_depth_bounded(t: &Traversal)
    requires
        t.wf(),
    ensures
        forall|i: int| 0 <= i < t.pending_seq().len() ==> (#[trigger] t.pending_seq()[i]).1 <= t.max_depth_spec(),
{
}

/// The fetches in flight never outnumber the admission capacity.
pub proof fn law_in_flight_bounded(t: &Traversal)
    requires
        t.wf(),
    ensures
        t.in_flight_spec() <= t.max_concurrent_spec(),
{
}

} // verus!
