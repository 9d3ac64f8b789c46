//! Bookkeeping of the synchronous decode job server: at most one decode per
//! distinct request, finished results kept in a bounded first-in first-out
//! store, and the decision a waiting caller takes.
use vstd::prelude::*;

verus! {

/// A decode job: an image at a target size, or the order to stop the worker.
#[derive(Debug)]
pub enum RenderJobRequest {
    Image { width: u32, height: u32, image: String },
    Die,
}

pub enum JobModel {
    Image(u32, u32, Seq<char>),
    Die,
}

impl View for RenderJobRequest {
    type V = JobModel;

    open spec fn view(&self) -> JobModel {
        match self {
            RenderJobRequest::Image { width, height, image } => JobModel::Image(*width, *height, image@),
            RenderJobRequest::Die => JobModel::Die,
        }
    }
}

impl RenderJobRequest {
    pub fn duplicate(&self) -> (r: Self)
        ensures
            r@ == self@,
    {
        match self {
            RenderJobRequest::Image { width, height, image } => RenderJobRequest::Image {
                width: *width,
                height: *height,
                image: image.clone(),
            },
            RenderJobRequest::Die => RenderJobRequest::Die,
        }
    }

    pub fn same(&self, other: &RenderJobRequest) -> (r: bool)
        ensures
            r == (self@ == other@),
    {
        match (self, other) {
            (
                RenderJobRequest::Image { width: w1, height: h1, image: i1 },
                RenderJobRequest::Image { width: w2, height: h2, image: i2 },
            ) => *w1 == *w2 && *h1 == *h2 && *i1 == *i2,
            (RenderJobRequest::Die, RenderJobRequest::Die) => true,
            _ => false,
        }
    }
}

/// Start time of a decode job, for the time it took.
#[derive(Debug, Clone, Copy, PartialEq, Eq, Structural)]
pub struct JobTime {
    pub start: u64,
}

impl JobTime {
    pub fn new(now_ms: u64) -> (r: Self)
        ensures
            r.start == now_ms,
    {
        JobTime { start: now_ms }
    }

    /// Milliseconds since the start, zero if the clock reads earlier.
    pub fn elapsed(&self, now_ms: u64) -> (r: u64)
        ensures
            r == crate::transition::elapsed_ms(self.start, now_ms),
    {
        if now_ms >= self.start {
            now_ms - self.start
        } else {
            0
        }
    }
}

/// Messages to a render worker.
#[derive(Debug, Clone, Copy, PartialEq, Eq, Structural)]
pub enum RenderNotify {
    UpdateDim { width: u32, height: u32 },
    UpdateList,
    SendMe,
}

/// What a caller waiting for a job does next.
#[derive(Debug, Clone, Copy, PartialEq, Eq, Structural)]
pub enum JobPoll {
    /// The result is stored at this position.
    Ready(usize),
    /// Someone asked for it already: wait for the next completion.
    Wait,
    /// Nobody asked yet: submit it once, then wait.
    Submit,
}

pub open spec fn done_keys<V>(s: Seq<(RenderJobRequest, V)>) -> Seq<JobModel> {
    s.map_values(|e: (RenderJobRequest, V)| e.0@)
}

pub open spec fn job_keys(s: Seq<RenderJobRequest>) -> Seq<JobModel> {
    s.map_values(|e: RenderJobRequest| e@)
}

/// The worker takes a job exactly when it is an image that was not taken yet.
pub open spec fn accepts(requested: Set<JobModel>, job: JobModel) -> bool {
    job != JobModel::Die && !requested.contains(job)
}

/// Number of decodes started when the same job arrives `n` times in a row.
pub open spec fn decodes_started(requested: Set<JobModel>, job: JobModel, n: nat) -> nat
    decreases n,
{
    if n == 0 {
        0
    } else if accepts(requested, job) {
        1 + decodes_started(requested.insert(job), job, (n - 1) as nat)
    } else {
        decodes_started(requested, job, (n - 1) as nat)
    }
}

/// However many times the same job is issued, at most one decode starts, and
/// exactly one when it is an image nobody asked for before.
pub proof fn lemma_at_most_one_in_flight(requested: Set<JobModel>, job: JobModel, n: nat)
    ensures
        decodes_started(requested, job, n) == (if n > 0 && accepts(requested, job) {
            1nat
        } else {
            0nat
        }),
    decreases n,
{
    if n > 0 {
        if accepts(requested, job) {
            lemma_at_most_one_in_flight(requested.insert(job), job, (n - 1) as nat);
        } else {
            lemma_at_most_one_in_flight(requested, job, (n - 1) as nat);
        }
    }
}

/// Requests taken by the worker and finished results, oldest first.
pub struct JobBook<V> {
    pub done: Vec<(RenderJobRequest, V)>,
    pub requested: Vec<RenderJobRequest>,
    pub cap: usize,
}

impl<V> JobBook<V> {
    pub open spec fn requested_set(&self) -> Set<JobModel> {
        job_keys(self.requested@).to_set()
    }

    pub open spec fn done_set(&self) -> Set<JobModel> {
        done_keys(self.done@).to_set()
    }

    /// Results are only stored for taken requests, each once, and never more
    /// than `cap` of them.
    pub open spec fn wf(&self) -> bool {
        &&& done_keys(self.done@).no_duplicates()
        &&& self.done_set().subset_of(self.requested_set())
        &&& self.done@.len() <= self.cap
    }

    pub fn new(cap: usize) -> (r: Self)
        ensures
            r.wf(),
            r.cap == cap,
            r.done@.len() == 0,
            r.requested_set() == Set::<JobModel>::empty(),
    {
        let r = JobBook { done: Vec::new(), requested: Vec::new(), cap };
        assert(done_keys(r.done@) =~= Seq::empty());
        assert(r.requested_set() =~= Set::empty());
        assert(r.done_set() =~= Set::empty());
        r
    }

    fn find_done(&self, job: &RenderJobRequest) -> (r: Option<usize>)
        ensures
            match r {
                Some(i) => i < self.done@.len() && self.done@[i as int].0@ == job@ && self.done_set().contains(job@),
                None => !self.done_set().contains(job@),
            },
    {
        let mut i: usize = 0;
        while i < self.done.len()
            invariant
                i <= self.done@.len(),
                forall|j: int| 0 <= j < i ==> #[trigger] self.done@[j].0@ != job@,
            decreases self.done@.len() - i,
        {
            if self.done[i].0.same(job) {
                assert(done_keys(self.done@)[i as int] == job@);
                return Some(i);
            }
            i = i + 1;
        }
        proof {
            if done_keys(self.done@).contains(job@) {
                let j = choose|j: int| 0 <= j < done_keys(self.done@).len() && done_keys(self.done@)[j] == job@;
                assert(self.done@[j].0@ == job@);
            }
        }
        None
    }

    fn is_requested(&self, job: &RenderJobRequest) -> (r: bool)
        ensures
            r == self.requested_set().contains(job@),
    {
        let mut i: usize = 0;
        while i < self.requested.len()
            invariant
                i <= self.requested@.len(),
                forall|j: int| 0 <= j < i ==> #[trigger] self.requested@[j]@ != job@,
            decreases self.requested@.len() - i,
        {
            if self.requested[i].same(job) {
                assert(job_keys(self.requested@)[i as int] == job@);
                return true;
            }
            i = i + 1;
        }
        proof {
            if job_keys(self.requested@).contains(job@) {
                let j = choose|j: int| 0 <= j < job_keys(self.requested@).len() && job_keys(self.requested@)[j] == job@;
                assert(self.requested@[j]@ == job@);
            }
        }
        false
    }

    /// The decision of a caller waiting for `request`, who has or has not
    /// submitted it already: take the stored result, submit, or wait.
    pub fn poll(&self, request: &RenderJobRequest, submitted: bool) -> (r: JobPoll)
        ensures
            match r {
                JobPoll::Ready(i) => i < self.done@.len() && self.done@[i as int].0@ == request@,
                JobPoll::Wait => !self.done_set().contains(request@) && (submitted
                    || self.requested_set().contains(request@)),
                JobPoll::Submit => !self.done_set().contains(request@) && !submitted
                    && !self.requested_set().contains(request@),
            },
    {
        match self.find_done(request) {
            Some(i) => JobPoll::Ready(i),
            None => {
                if submitted || self.is_requested(request) {
                    JobPoll::Wait
                } else {
                    JobPoll::Submit
                }
            },
        }
    }

    /// The stored result at position `i`.
    pub fn result(&self, i: usize) -> (r: &V)
        requires
            i < self.done@.len(),
        ensures
            *r == self.done@[i as int].1,
    {
        &self.done[i].1
    }

    /// The worker receives `job`: it takes it (and must decode it) exactly when
    /// it is an image not taken before.
    pub fn accept(&mut self, job: &RenderJobRequest) -> (r: bool)
        requires
            old(self).wf(),
        ensures
            final(self).wf(),
            r == accepts(old(self).requested_set(), job@),
            final(self).requested_set() == (if r {
                old(self).requested_set().insert(job@)
            } else {
                old(self).requested_set()
            }),
            final(self).done@ == old(self).done@,
            final(self).cap == old(self).cap,
    {
        let is_die = match job {
            RenderJobRequest::Die => true,
            _ => false,
        };
        if is_die || self.is_requested(job) {
            return false;
        }
        let ghost before = self.requested@;
        self.requested.push(job.duplicate());
        proof {
            let s0 = job_keys(before);
            let k = job@;
            assert(job_keys(self.requested@) =~= s0.push(k));
            assert forall|y| #[trigger] s0.push(k).to_set().contains(y) <==> s0.to_set().insert(k).contains(y) by {
                if s0.push(k).contains(y) {
                    let j = choose|j: int| 0 <= j < s0.push(k).len() && s0.push(k)[j] == y;
                    if j < s0.len() {
                        assert(s0[j] == y);
                    }
                }
                if s0.contains(y) {
                    let j = choose|j: int| 0 <= j < s0.len() && s0[j] == y;
                    assert(s0.push(k)[j] == y);
                }
                if y == k {
                    assert(s0.push(k)[s0.len() as int] == y);
                }
            }
            assert(self.requested_set() =~= old(self).requested_set().insert(k));
        }
        true
    }

    /// The decode of a taken job failed: it is no longer taken, so the next
    /// caller submits it again instead of waiting for ever.
    pub fn release(&mut self, job: &RenderJobRequest)
        requires
            old(self).wf(),
            !old(self).done_set().contains(job@),
        ensures
            final(self).wf(),
            final(self).requested_set() == old(self).requested_set().remove(job@),
            final(self).done@ == old(self).done@,
            final(self).cap == old(self).cap,
    {
        self.forget_request(job);
    }

    fn forget_request(&mut self, job: &RenderJobRequest)
        ensures
            final(self).requested_set() == old(self).requested_set().remove(job@),
            final(self).done@ == old(self).done@,
            final(self).cap == old(self).cap,
    {
        let mut kept: Vec<RenderJobRequest> = Vec::new();
        let mut i: usize = 0;
        while i < self.requested.len()
            invariant
                i <= self.requested@.len(),
                forall|y| #[trigger] job_keys(kept@).contains(y) <==> (y != job@ && job_keys(self.requested@.subrange(0, i as int)).contains(y)),
            decreases self.requested@.len() - i,
        {
            let ghost pre_kept = kept@;
            let ghost x = self.requested@[i as int]@;
            if !self.requested[i].same(job) {
                kept.push(self.requested[i].duplicate());
            }
            proof {
                let a = job_keys(self.requested@.subrange(0, i as int));
                let b = job_keys(self.requested@.subrange(0, i as int + 1));
                assert(b =~= a.push(x));
                if x != job@ {
                    assert(job_keys(kept@) =~= job_keys(pre_kept).push(x));
                } else {
                    assert(kept@ == pre_kept);
                }
                assert forall|y| #[trigger] job_keys(kept@).contains(y) <==> (y != job@ && b.contains(y)) by {
                    if b.contains(y) {
                        let j = choose|j: int| 0 <= j < b.len() && b[j] == y;
                        if j < a.len() {
                            assert(a[j] == y);
                        }
                    }
                    if a.contains(y) {
                        let j = choose|j: int| 0 <= j < a.len() && a[j] == y;
                        assert(b[j] == y);
                    }
                    if x != job@ {
                        let s0 = job_keys(pre_kept);
                        if s0.push(x).contains(y) {
                            let j = choose|j: int| 0 <= j < s0.push(x).len() && s0.push(x)[j] == y;
                            if j < s0.len() {
                                assert(s0[j] == y);
                            }
                        }
                        if s0.contains(y) {
                            let j = choose|j: int| 0 <= j < s0.len() && s0[j] == y;
                            assert(s0.push(x)[j] == y);
                        }
                        if y == x {
                            assert(s0.push(x)[s0.len() as int] == y);
                        }
                    }
                    if y == x {
                        assert(b[a.len() as int] == y);
                    }
                }
            }
            i = i + 1;
        }
        assert(self.requested@.subrange(0, self.requested@.len() as int) =~= self.requested@);
        self.requested = kept;
        assert(self.requested_set() =~= old(self).requested_set().remove(job@));
    }

    /// Store the decoded result of a taken job. When the store then holds more
    /// than `cap` results, the oldest is dropped and may be requested again.
    pub fn complete(&mut self, job: RenderJobRequest, value: V)
        requires
            old(self).wf(),
            old(self).requested_set().contains(job@),
            !old(self).done_set().contains(job@),
        ensures
            final(self).wf(),
            final(self).cap == old(self).cap,
            old(self).done@.len() < old(self).cap ==> {
                &&& final(self).done@ == old(self).done@.push((job, value))
                &&& final(self).requested_set() == old(self).requested_set()
            },
            old(self).done@.len() >= old(self).cap && old(self).done@.len() > 0 ==> {
                &&& final(self).done@ == old(self).done@.push((job, value)).subrange(1, old(self).done@.len() as int + 1)
                &&& final(self).requested_set() == old(self).requested_set().remove(old(self).done@[0].0@)
            },
            old(self).done@.len() == 0 && old(self).cap == 0 ==> final(self).done@.len() == 0
                && final(self).requested_set() == old(self).requested_set().remove(job@),
    {
        let ghost before = self.done@;
        let ghost k = job@;
        self.done.push((job, value));
        proof {
            assert(done_keys(self.done@) =~= done_keys(before).push(k));
            crate::engine::lemma_push_unique(done_keys(before), k);
        }
        if self.done.len() > self.cap {
            let ghost mid = self.done@;
            let oldest = self.done.remove(0);
            proof {
                assert(done_keys(self.done@) =~= done_keys(mid).subrange(1, mid.len() as int));
                assert forall|y| #[trigger] done_keys(self.done@).to_set().contains(y) implies done_keys(mid).to_set().contains(y) && y != oldest.0@ by {
                    let j = choose|j: int| 0 <= j < done_keys(self.done@).len() && done_keys(self.done@)[j] == y;
                    assert(done_keys(mid)[j + 1] == y);
                    assert(done_keys(mid)[0] == oldest.0@);
                }
                assert forall|a: int, b: int| 0 <= a < done_keys(self.done@).len() && 0 <= b < done_keys(self.done@).len() && a != b
                    implies done_keys(self.done@)[a] != done_keys(self.done@)[b] by {
                    assert(done_keys(mid)[a + 1] != done_keys(mid)[b + 1]);
                }
            }
            self.forget_request(&oldest.0);
        }
    }
}

} // verus!
