//! The state lock: who may change the deployment state, and until when.
//!
//! A store keeps at most one lock. Taking it fails while an unexpired lock
//! is held; an expired lock may be seized. Releasing it needs the lock's
//! identifier; another identifier leaves it in place.

use vstd::prelude::*;
use vstd::string::*;

use crate::error::StateError;
use crate::bytes::str_eq;

verus! {

/// Seconds a lock lasts.
pub const LOCK_EXPIRY_SECS: i64 = 300;

/// A held lock. Times are seconds since the Unix epoch.
#[derive(Debug, Clone)]
pub struct LockInfo {
    /// Unique identifier of this acquisition.
    pub lock_id: String,
    /// Who holds it.
    pub holder: String,
    /// When it was taken.
    pub acquired_at: i64,
    /// When it lapses.
    pub expires_at: i64,
}

/// A lock held by this process.
#[derive(Debug)]
pub struct StateLock {
    info: LockInfo,
}

/// The lock place of a state store: the lock it holds, if any.
#[derive(Debug)]
pub struct LockSlot {
    /// The lock held, if any.
    pub current: Option<LockInfo>,
}

/// Relies on `uuid::Uuid::new_v4` and its `Display`: a fresh random
/// identifier in hyphenated text. Nothing is known of its value.
#[verifier::external_body]
fn fresh_lock_id() -> (r: String) {
    uuid::Uuid::new_v4().to_string()
}

/// Whether a lock has lapsed at time `now`.
pub open spec fn expired_at(l: LockInfo, now: i64) -> bool {
    now > l.expires_at
}

/// Whether the slot holds a lock that has not lapsed at time `now`.
pub open spec fn locked_at(s: LockSlot, now: i64) -> bool {
    s.current matches Some(l) && !expired_at(l, now)
}

/// What `LockSlot::acquire` does: refuse while an unexpired lock is held,
/// naming its holder and start; else hold a fresh lock for `holder` from
/// `now` to `now + LOCK_EXPIRY_SECS` and return it.
pub open spec fn acquire_post(before: LockSlot, after: LockSlot, holder: Seq<char>, now: i64, r: Result<LockInfo, StateError>) -> bool {
    if locked_at(before, now) {
        &&& r matches Err(StateError::LockedByOther { holder: h, since }) && h@ == before.current->0.holder@
            && since == before.current->0.acquired_at
        &&& after == before
    } else {
        &&& r matches Ok(l) && l.holder@ == holder && l.acquired_at == now && l.expires_at == now + LOCK_EXPIRY_SECS
        &&& after.current == Some(r->Ok_0)
    }
}

/// What `LockSlot::release` does: drop the lock only when its identifier
/// is `lock_id`.
pub open spec fn release_post(before: LockSlot, after: LockSlot, lock_id: Seq<char>) -> bool {
    if before.current matches Some(l) && l.lock_id@ == lock_id {
        after.current is None
    } else {
        after == before
    }
}

/// Two attempts to take a free lock within its lifetime: the first
/// succeeds and the second is refused.
pub proof fn lemma_lock_exclusive(
    s0: LockSlot,
    s1: LockSlot,
    s2: LockSlot,
    h1: Seq<char>,
    h2: Seq<char>,
    t1: i64,
    t2: i64,
    r1: Result<LockInfo, StateError>,
    r2: Result<LockInfo, StateError>,
)
    requires
        !locked_at(s0, t1),
        acquire_post(s0, s1, h1, t1, r1),
        acquire_post(s1, s2, h2, t2, r2),
        t1 <= t2 <= t1 + LOCK_EXPIRY_SECS,
    ensures
        r1 is Ok,
        r2 is Err,
        s2 == s1,
{
}

/// Releasing with the identifier of the held lock frees the slot;
/// releasing with any other identifier leaves it as it was.
pub proof fn lemma_release_own_only(before: LockSlot, after: LockSlot, lock_id: Seq<char>)
    requires
        release_post(before, after, lock_id),
    ensures
        (before.current matches Some(l) && l.lock_id@ == lock_id) ==> after.current is None,
        !(before.current matches Some(l) && l.lock_id@ == lock_id) ==> after == before,
{
}

/// Copies a lock.
fn copy_lock(l: &LockInfo) -> (r: LockInfo)
    ensures
        r == *l,
{
    LockInfo {
        lock_id: l.lock_id.clone(),
        holder: l.holder.clone(),
        acquired_at: l.acquired_at,
        expires_at: l.expires_at,
    }
}

impl LockInfo {
    /// A fresh lock for `holder`, taken at `now`, lapsing after
    /// `LOCK_EXPIRY_SECS`.
    pub fn new(holder: &str, now: i64) -> (r: Self)
        requires
            now <= i64::MAX - LOCK_EXPIRY_SECS,
        ensures
            r.holder@ == holder@,
            r.acquired_at == now,
            r.expires_at == now + LOCK_EXPIRY_SECS,
    {
        LockInfo {
            lock_id: fresh_lock_id(),
            holder: String::from_str(holder),
            acquired_at: now,
            expires_at: now + LOCK_EXPIRY_SECS,
        }
    }

    /// Whether the lock has lapsed at time `now`.
    pub fn is_expired(&self, now: i64) -> (r: bool)
        ensures
            r == expired_at(*self, now),
    {
        now > self.expires_at
    }

    /// Extends the lock to `LOCK_EXPIRY_SECS` after `now`.
    pub fn refresh(&mut self, now: i64)
        requires
            now <= i64::MAX - LOCK_EXPIRY_SECS,
        ensures
            *final(self) == (LockInfo { expires_at: (now + LOCK_EXPIRY_SECS) as i64, ..*old(self) }),
    {
        self.expires_at = now + LOCK_EXPIRY_SECS;
    }

    /// Seconds left before the lock lapses at time `now`, never below zero
    /// (saturating at `i64::MAX`).
    pub fn remaining_secs(&self, now: i64) -> (r: i64)
        ensures
            r == if now >= self.expires_at {
                0
            } else if self.expires_at - now > i64::MAX {
                i64::MAX as int
            } else {
                self.expires_at - now
            },
    {
        if now >= self.expires_at {
            0
        } else {
            let d: i128 = self.expires_at as i128 - now as i128;
            if d > i64::MAX as i128 {
                i64::MAX
            } else {
                d as i64
            }
        }
    }
}

impl StateLock {
    /// A fresh lock for `holder`, taken at `now`.
    pub fn new(holder: &str, now: i64) -> (r: Self)
        requires
            now <= i64::MAX - LOCK_EXPIRY_SECS,
        ensures
            r.spec_info().holder@ == holder@,
            r.spec_info().acquired_at == now,
            r.spec_info().expires_at == now + LOCK_EXPIRY_SECS,
    {
        StateLock { info: LockInfo::new(holder, now) }
    }

    /// The lock described by `info`.
    pub fn from_info(info: LockInfo) -> (r: Self)
        ensures
            r.spec_info() == info,
    {
        StateLock { info }
    }

    /// What is known of the lock.
    pub closed spec fn spec_info(&self) -> LockInfo {
        self.info
    }

    /// The lock's identifier.
    pub fn lock_id(&self) -> (r: &str)
        ensures
            r@ == self.spec_info().lock_id@,
    {
        self.info.lock_id.as_str()
    }

    /// Who holds the lock.
    pub fn holder(&self) -> (r: &str)
        ensures
            r@ == self.spec_info().holder@,
    {
        self.info.holder.as_str()
    }

    /// The lock's details.
    pub fn info(&self) -> (r: &LockInfo)
        ensures
            *r == self.spec_info(),
    {
        &self.info
    }

    /// Whether the lock has lapsed at time `now`.
    pub fn is_expired(&self, now: i64) -> (r: bool)
        ensures
            r == expired_at(self.spec_info(), now),
    {
        self.info.is_expired(now)
    }

    /// Extends the lock to `LOCK_EXPIRY_SECS` after `now`.
    pub fn refresh(&mut self, now: i64)
        requires
            now <= i64::MAX - LOCK_EXPIRY_SECS,
        ensures
            final(self).spec_info() == (LockInfo { expires_at: (now + LOCK_EXPIRY_SECS) as i64, ..old(self).spec_info() }),
    {
        self.info.refresh(now);
    }
}

impl LockSlot {
    /// A slot with no lock.
    pub fn empty() -> (r: Self)
        ensures
            r.current is None,
    {
        LockSlot { current: None }
    }

    /// Takes the lock for `holder` at time `now`; refused with
    /// `LockedByOther` while an unexpired lock is held. An expired lock is
    /// seized.
    pub fn acquire(&mut self, holder: &str, now: i64) -> (r: Result<LockInfo, StateError>)
        requires
            now <= i64::MAX - LOCK_EXPIRY_SECS,
        ensures
            acquire_post(*old(self), *final(self), holder@, now, r),
    {
        match &self.current {
            Some(l) => {
                if !l.is_expired(now) {
                    return Err(StateError::LockedByOther { holder: l.holder.clone(), since: l.acquired_at });
                }
            },
            None => {},
        }
        let info = LockInfo::new(holder, now);
        self.current = Some(copy_lock(&info));
        Ok(info)
    }

    /// Drops the lock if its identifier is `lock_id`; otherwise does
    /// nothing, since another holder owns it.
    pub fn release(&mut self, lock_id: &str)
        ensures
            release_post(*old(self), *final(self), lock_id@),
    {
        let matches = match &self.current {
            Some(l) => str_eq(l.lock_id.as_str(), lock_id),
            None => false,
        };
        if matches {
            self.current = None;
        }
    }

    /// Drops the lock, whoever holds it.
    pub fn force_unlock(&mut self)
        ensures
            final(self).current is None,
    {
        self.current = None;
    }

    /// Whether an unexpired lock is held at time `now`.
    pub fn is_locked(&self, now: i64) -> (r: bool)
        ensures
            r == locked_at(*self, now),
    {
        match &self.current {
            Some(l) => !l.is_expired(now),
            None => false,
        }
    }

    /// The lock held, if any.
    pub fn get_lock_info(&self) -> (r: Option<&LockInfo>)
        ensures
            match r {
                Some(l) => self.current == Some(*l),
                None => self.current is None,
            },
    {
        match &self.current {
            Some(l) => Some(l),
            None => None,
        }
    }
}

} // verus!
