use vstd::prelude::*;

use crate::error::Error;

verus! {

/// Whether a supervised NodeCG instance is currently held.
#[derive(Clone, Copy, Debug, PartialEq, Eq, Structural)]
pub enum NodecgStatus {
    NotRunning,
    Running,
}

/// The supervisor for the single long-running NodeCG instance. It owns at
/// most one process handle at a time, modelled by the held process id; the
/// caller performs the actual spawn, liveness probe and termination and
/// reports their outcomes, and the supervisor decides every transition.
#[derive(Debug)]
pub struct ManagedNodecg {
    process: Option<u32>,
}

impl ManagedNodecg {
    /// The process id the supervisor currently holds, if any.
    pub closed spec fn held(self) -> Option<u32> {
        self.process
    }

    /// A fresh supervisor holding no process.
    pub fn new() -> (r: ManagedNodecg)
        ensures
            r.held() is None,
    {
        ManagedNodecg { process: None }
    }

    /// The held process id, for the caller's liveness probe.
    pub fn held_pid(&self) -> (r: Option<u32>)
        ensures
            r == self.held(),
    {
        self.process
    }

    /// Whether an instance is currently held.
    pub fn status(&self) -> (r: NodecgStatus)
        ensures
            r == NodecgStatus::Running <==> self.held() is Some,
    {
        match self.process {
            Some(_) => NodecgStatus::Running,
            None => NodecgStatus::NotRunning,
        }
    }

    /// Records a start request. `held_process_alive` reports whether the OS
    /// process table still lists the held process id (queried afresh by the
    /// caller; it is ignored when nothing is held), and `new_pid` is the id
    /// of the instance the caller will retain on success. A held process
    /// that is genuinely alive rejects the start and nothing changes; a
    /// stale handle, whose process has already exited, is replaced.
    pub fn start(&mut self, held_process_alive: bool, new_pid: u32) -> (r: Result<(), Error>)
        ensures
            old(self).held() is Some && held_process_alive ==> r == Err::<(), Error>(
                Error::AlreadyRunning,
            ) && final(self).held() == old(self).held(),
            !(old(self).held() is Some && held_process_alive) ==> r is Ok && final(self).held()
                == Some(new_pid),
    {
        if self.process.is_some() && held_process_alive {
            return Err(Error::AlreadyRunning);
        }
        self.process = Some(new_pid);
        Ok(())
    }

    /// Records a stop request. When nothing is held the stop succeeds as a
    /// no-op and `kill_result` is ignored (the caller attempts a termination
    /// only when a process is held). A reported termination failure leaves
    /// the handle in place, so a later stop can retry; success clears it.
    pub fn stop(&mut self, kill_result: Result<(), String>) -> (r: Result<(), Error>)
        ensures
            old(self).held() is None ==> r is Ok && final(self).held() is None,
            old(self).held() is Some ==> match kill_result {
                Ok(()) => r is Ok && final(self).held() is None,
                Err(c) => r == Err::<(), Error>(Error::KillFailed(c)) && final(self).held() == old(
                    self,
                ).held(),
            },
    {
        if self.process.is_none() {
            return Ok(());
        }
        match kill_result {
            Ok(()) => {
                self.process = None;
                Ok(())
            },
            Err(c) => Err(Error::KillFailed(c)),
        }
    }
}

/// Everything after the first path separator, or nothing when there is none.
pub open spec fn after_first_slash(s: Seq<char>) -> Seq<char>
    decreases s.len(),
{
    if s.len() == 0 {
        Seq::empty()
    } else if s[0] == '/' {
        s.drop_first()
    } else {
        after_first_slash(s.drop_first())
    }
}

/// The sequence with its leading path separators removed.
pub open spec fn drop_leading_slashes(s: Seq<char>) -> Seq<char>
    decreases s.len(),
{
    if s.len() > 0 && s[0] == '/' {
        drop_leading_slashes(s.drop_first())
    } else {
        s
    }
}

/// An archive entry path with its first component removed: release tarballs
/// nest everything under one root directory, which unpacking skips.
pub open spec fn stripped_entry_path(s: Seq<char>) -> Seq<char> {
    drop_leading_slashes(after_first_slash(s))
}

proof fn lemma_after_first_slash_at(s: Seq<char>, p: int)
    requires
        0 <= p < s.len(),
        s[p] == '/',
        forall|k: int| 0 <= k < p ==> s[k] != '/',
    ensures
        after_first_slash(s) == s.skip(p + 1),
    decreases p,
{
    if p == 0 {
        assert(s.drop_first() =~= s.skip(1));
    } else {
        lemma_after_first_slash_at(s.drop_first(), p - 1);
        assert(s.drop_first().skip(p) =~= s.skip(p + 1));
    }
}

proof fn lemma_after_first_slash_none(s: Seq<char>)
    requires
        forall|k: int| 0 <= k < s.len() ==> s[k] != '/',
    ensures
        after_first_slash(s) == Seq::<char>::empty(),
    decreases s.len(),
{
    if s.len() > 0 {
        lemma_after_first_slash_none(s.drop_first());
    }
}

proof fn lemma_drop_leading_slashes(s: Seq<char>, t: int)
    requires
        0 <= t <= s.len(),
        forall|k: int| 0 <= k < t ==> s[k] == '/',
        t < s.len() ==> s[t] != '/',
    ensures
        drop_leading_slashes(s) == s.skip(t),
    decreases t,
{
    if t == 0 {
        assert(s.skip(0) =~= s);
    } else {
        lemma_drop_leading_slashes(s.drop_first(), t - 1);
        assert(s.drop_first().skip(t - 1) =~= s.skip(t));
    }
}

/// Strips the leading root component from an archive entry path, as the
/// installer does when unpacking a release tarball.
pub fn strip_archive_root(path: &str) -> (r: String)
    ensures
        r@ == stripped_entry_path(path@),
{
    let len = path.unicode_len();
    let mut p: usize = 0;
    while p < len && path.get_char(p) != '/'
        invariant
            p <= len,
            len == path@.len(),
            forall|k: int| 0 <= k < p ==> path@[k] != '/',
        decreases len - p,
    {
        p = p + 1;
    }
    if p == len {
        proof {
            lemma_after_first_slash_none(path@);
        }
        return String::new();
    }
    proof {
        lemma_after_first_slash_at(path@, p as int);
    }
    let mut t: usize = p + 1;
    while t < len && path.get_char(t) == '/'
        invariant
            p + 1 <= t <= len,
            len == path@.len(),
            forall|k: int| p + 1 <= k < t ==> path@[k] == '/',
        decreases len - t,
    {
        t = t + 1;
    }
    proof {
        let rest = path@.skip(p + 1);
        assert forall|k: int| 0 <= k < t - (p + 1) implies rest[k] == '/' by {
            assert(rest[k] == path@[p + 1 + k]);
        }
        if t < len {
            assert(rest[t - (p + 1)] == path@[t as int]);
        }
        lemma_drop_leading_slashes(rest, t - (p + 1));
        assert(rest.skip(t - (p + 1)) =~= path@.skip(t as int));
        assert(path@.subrange(t as int, len as int) =~= path@.skip(t as int));
    }
    path.substring_char(t, len).to_owned()
}

} // verus!
