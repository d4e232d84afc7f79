//! The tunnel registry: a keyed map of live tunnel handles. It enforces
//! at-most-one-tunnel-per-key — `start` checks and inserts in one exclusive
//! step, `stop` removes the entry before the handle is torn down — so a key
//! is free again exactly when its tunnel has been stopped.

use vstd::prelude::*;
use crate::store::KeyedStore;

verus! {

/// What `start` reports: the tunnel was spawned and registered, the key
/// already had a live tunnel, or the spawn itself failed.
#[derive(Debug, Clone, PartialEq, Eq)]
pub enum StartOutcome {
    Started,
    AlreadyRunning,
    SpawnFailed(String),
}

/// What `stop` reports: the tunnel was removed and its process ended, the
/// key had no tunnel, or the process could not be killed (the entry is
/// still removed — the handle is no longer tracked).
#[derive(Debug, Clone, PartialEq, Eq)]
pub enum StopOutcome {
    Stopped,
    NotFound,
    KillFailed(String),
}

/// The registry of live tunnels, keyed by `username@host`. The handle type
/// is whatever owns the spawned process; the registry only stores it.
pub struct TunnelRegistry<H> {
    tunnels: KeyedStore<H>,
}

impl<H> View for TunnelRegistry<H> {
    type V = Map<Seq<char>, H>;

    closed spec fn view(&self) -> Map<Seq<char>, H> {
        self.tunnels@
    }
}

impl<H> TunnelRegistry<H> {
    /// Each key is tracked at most once.
    pub closed spec fn wf(&self) -> bool {
        self.tunnels.wf()
    }

    /// An empty registry.
    pub fn new() -> (r: Self)
        ensures
            r.wf(),
            r@ == Map::<Seq<char>, H>::empty(),
    {
        TunnelRegistry { tunnels: KeyedStore::new() }
    }

    /// Whether a tunnel is tracked under `key`.
    pub fn is_running(&self, key: &str) -> (b: bool)
        ensures
            b == self@.contains_key(key@),
    {
        self.tunnels.contains(key)
    }

    /// Starts a tunnel under `key`: only if no entry exists is `spawn`
    /// invoked on `arg`, and only a spawned handle is inserted. The whole
    /// check-and-insert runs under this one exclusive borrow, so no other
    /// start or stop can interleave with it.
    pub fn start<A, F: FnOnce(A) -> Result<H, String>>(&mut self, key: &str, arg: A, spawn: F)
        -> (r: StartOutcome)
        requires
            old(self).wf(),
            call_requires(spawn, (arg,)),
        ensures
            final(self).wf(),
            r == StartOutcome::AlreadyRunning <==> old(self)@.contains_key(key@),
            r == StartOutcome::AlreadyRunning ==> final(self)@ == old(self)@,
            r == StartOutcome::Started ==> exists|h: H|
                call_ensures(spawn, (arg,), Ok::<H, String>(h)) && final(self)@ == old(
                    self,
                )@.insert(key@, h),
            r matches StartOutcome::SpawnFailed(e) ==> final(self)@ == old(self)@
                && call_ensures(spawn, (arg,), Err::<H, String>(e)),
    {
        if self.tunnels.contains(key) {
            return StartOutcome::AlreadyRunning;
        }
        match spawn(arg) {
            Ok(handle) => {
                self.tunnels.insert(key, handle);
                StartOutcome::Started
            },
            Err(e) => StartOutcome::SpawnFailed(e),
        }
    }

    /// Stops the tunnel under `key`: the entry is removed first, then the
    /// handle is handed to `kill`. A failed kill does not restore the entry;
    /// the process is no longer tracked.
    pub fn stop<F: FnOnce(H) -> Result<(), String>>(&mut self, key: &str, kill: F) -> (r:
        StopOutcome)
        requires
            old(self).wf(),
            old(self)@.contains_key(key@) ==> call_requires(kill, (old(self)@[key@],)),
        ensures
            final(self).wf(),
            r == StopOutcome::NotFound <==> !old(self)@.contains_key(key@),
            r == StopOutcome::NotFound ==> final(self)@ == old(self)@,
            old(self)@.contains_key(key@) ==> final(self)@ == old(self)@.remove(key@),
            r == StopOutcome::Stopped ==> call_ensures(
                kill,
                (old(self)@[key@],),
                Ok::<(), String>(()),
            ),
            r matches StopOutcome::KillFailed(e) ==> call_ensures(
                kill,
                (old(self)@[key@],),
                Err::<(), String>(e),
            ),
    {
        match self.tunnels.remove(key) {
            Some(handle) => {
                proof {
                    assert(old(self)@.contains_key(key@));
                    assert(handle == old(self)@[key@]);
                }
                match kill(handle) {
                    Ok(u) => {
                        proof {
                            assert(u == ());
                        }
                        StopOutcome::Stopped
                    },
                    Err(e) => StopOutcome::KillFailed(e),
                }
            },
            None => StopOutcome::NotFound,
        }
    }
}

/// Starting a tunnel registers its handle under the key, so a second start
/// for the same key — under `start`'s contract — finds the entry and
/// reports `AlreadyRunning` instead of spawning a second process: of two
/// immediate starts on a fresh key, exactly one registers.
pub proof fn lemma_second_start_sees_first<H>(m: Map<Seq<char>, H>, key: Seq<char>, h: H)
    requires
        !m.contains_key(key),
    ensures
        m.insert(key, h).contains_key(key),
{
}

/// A clean stop frees the key completely: removing what a start inserted
/// under a fresh key restores the registry as it was, so a following start
/// for that key cannot see `AlreadyRunning` and registers again.
pub proof fn lemma_key_reusable_after_stop<H>(m: Map<Seq<char>, H>, key: Seq<char>, h: H)
    requires
        !m.contains_key(key),
    ensures
        m.insert(key, h).remove(key) == m,
        !m.insert(key, h).remove(key).contains_key(key),
{
    assert(m.insert(key, h).remove(key) =~= m);
}

} // verus!
