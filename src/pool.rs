use vstd::prelude::*;
use crate::message::LmdbMessage;
use crossbeam_channel::Sender;

verus! {

/// The counters of a pool: how many workers it was started with, and how
/// many of their channels are not checked out.
pub struct PoolView {
    pub total: nat,
    pub idle: nat,
}

/// The counters after one successful acquire.
pub open spec fn acquired(v: PoolView) -> PoolView {
    PoolView { total: v.total, idle: (v.idle - 1) as nat }
}

/// The counters after one release.
pub open spec fn released(v: PoolView) -> PoolView {
    PoolView { total: v.total, idle: v.idle + 1 }
}

/// The counters after `k` acquires in a row.
pub open spec fn acquired_n(v: PoolView, k: nat) -> PoolView
    decreases k,
{
    if k == 0 { v } else { acquired(acquired_n(v, (k - 1) as nat)) }
}

/// The counters after `k` releases in a row.
pub open spec fn released_n(v: PoolView, k: nat) -> PoolView
    decreases k,
{
    if k == 0 { v } else { released(released_n(v, (k - 1) as nat)) }
}

/// A fixed set of channels to worker threads, handed out one at a time.
pub struct ThreadPool {
    senders: Vec<Sender<LmdbMessage>>,
    total: usize,
    idle: usize,
}

impl ThreadPool {
    pub closed spec fn view(&self) -> PoolView {
        PoolView { total: self.total as nat, idle: self.idle as nat }
    }

    /// The channels that are not checked out, the next to go out last.
    pub closed spec fn available(&self) -> Seq<Sender<LmdbMessage>> {
        self.senders@
    }

    /// The idle count is the number of channels held, and never above the total.
    pub open spec fn wf(&self) -> bool {
        &&& self@.idle == self.available().len()
        &&& self@.idle <= self@.total
    }

    /// An empty pool: no workers.
    pub fn new() -> (r: Self)
        ensures
            r.wf(),
            r@ == (PoolView { total: 0, idle: 0 }),
            r.available() == Seq::<Sender<LmdbMessage>>::empty(),
    {
        ThreadPool { senders: Vec::new(), total: 0, idle: 0 }
    }

    /// Takes in the channels of freshly started workers, one per worker;
    /// all of them are idle.
    pub fn start_pool(&mut self, senders: Vec<Sender<LmdbMessage>>)
        ensures
            final(self).wf(),
            final(self)@ == (PoolView { total: senders@.len(), idle: senders@.len() }),
            final(self).available() == senders@,
    {
        let cap = senders.len();
        self.senders = senders;
        self.total = cap;
        self.idle = cap;
    }

    /// Hands out one idle channel, or `None` when all are checked out.
    pub fn pop(&mut self) -> (r: Option<Sender<LmdbMessage>>)
        requires
            old(self).wf(),
        ensures
            final(self).wf(),
            old(self)@.idle == 0 ==> r.is_none() && final(self)@ == old(self)@
                && final(self).available() == old(self).available(),
            old(self)@.idle > 0 ==> r == Some(old(self).available().last())
                && final(self)@ == acquired(old(self)@)
                && final(self).available() == old(self).available().drop_last(),
    {
        if self.senders.len() == 0 {
            None
        } else {
            self.idle = self.idle - 1;
            self.senders.pop()
        }
    }

    /// Gives back a channel that an earlier `pop` handed out.
    pub fn push(&mut self, sender: Sender<LmdbMessage>)
        requires
            old(self).wf(),
            old(self)@.idle < old(self)@.total,
        ensures
            final(self).wf(),
            final(self)@ == released(old(self)@),
            final(self).available() == old(self).available().push(sender),
    {
        self.idle = self.idle + 1;
        self.senders.push(sender);
    }

    pub fn total_threads(&self) -> (r: usize)
        ensures
            r == self@.total,
    {
        self.total
    }

    pub fn idle_threads(&self) -> (r: usize)
        ensures
            r == self@.idle,
    {
        self.idle
    }
}

/// Acquire and release accounting: from a pool started with `n` workers,
/// `k <= n` acquires leave `n - k` idle, and releasing all of them again
/// leaves every worker idle.
pub proof fn lemma_acquire_release(n: nat, k: nat)
    requires
        k <= n,
    ensures
        acquired_n(PoolView { total: n, idle: n }, k) == (PoolView { total: n, idle: (n - k) as nat }),
        released_n(acquired_n(PoolView { total: n, idle: n }, k), k) == (PoolView { total: n, idle: n }),
    decreases k,
{
    if k > 0 {
        lemma_acquire_release(n, (k - 1) as nat);
    }
    lemma_release_adds(PoolView { total: n, idle: (n - k) as nat }, k);
}

/// `k` releases add `k` to the idle count and keep the total.
pub proof fn lemma_release_adds(v: PoolView, k: nat)
    ensures
        released_n(v, k) == (PoolView { total: v.total, idle: v.idle + k }),
    decreases k,
{
    if k > 0 {
        lemma_release_adds(v, (k - 1) as nat);
    }
}

} // verus!
