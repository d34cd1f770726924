//! Quota notifications: each remaining-percentage threshold is announced
//! once, and again only after the quota has recovered above it.
use vstd::prelude::*;

use crate::quota::QuotaStatus;

verus! {

broadcast use vstd::std_specs::vec::group_vec_axioms;

/// The remaining quota, as far as thresholds are concerned.
#[derive(Debug, Clone, Copy, PartialEq, Eq, Structural)]
pub enum Remaining {
    /// No quota window is known.
    NoWindow,
    /// The window's remaining percentage is not a number.
    Unknown,
    /// The remaining percentage, clamped to 0..=100 and rounded up: it is at
    /// most a threshold `t` exactly when this number is at most `t`.
    AtMost(u8),
}

/// The smallest of the first `k` thresholds that is at least `level`.
pub open spec fn lowest_reached(thresholds: Seq<u8>, level: u8, k: int) -> Option<u8>
    decreases k,
{
    if k <= 0 || k > thresholds.len() {
        None
    } else {
        let rest = lowest_reached(thresholds, level, k - 1);
        let t = thresholds[k - 1];
        if level <= t {
            match rest {
                Some(r) => if r <= t {
                    Some(r)
                } else {
                    Some(t)
                },
                None => Some(t),
            }
        } else {
            rest
        }
    }
}

/// The threshold to announce at `level`: the smallest one that it has reached.
pub open spec fn threshold_for(thresholds: Seq<u8>, level: u8) -> Option<u8> {
    lowest_reached(thresholds, level, thresholds.len() as int)
}

/// Remembers which thresholds were announced.
pub struct NotificationController {
    sent_thresholds: Vec<u8>,
}

impl Default for NotificationController {
    fn default() -> (controller: Self)
        ensures
            controller.sent() == Set::<u8>::empty(),
            controller.wf(),
    {
        let controller = NotificationController { sent_thresholds: Vec::new() };
        assert(controller.sent_thresholds@.to_set() =~= Set::<u8>::empty());
        controller
    }
}

/// The announced thresholds that stay remembered at `level`: those it has
/// not risen above.
pub open spec fn kept_at(sent: Set<u8>, level: u8) -> Set<u8> {
    sent.filter(|t: u8| level <= t)
}

impl NotificationController {
    /// The thresholds announced and not yet recovered from.
    pub closed spec fn sent(&self) -> Set<u8> {
        self.sent_thresholds@.to_set()
    }

    pub closed spec fn wf(&self) -> bool {
        self.sent_thresholds@.no_duplicates()
    }

    /// Looks at a fresh quota. Nothing happens unless notifications are on,
    /// the quota is available and a window is known. Then the thresholds
    /// that the quota has risen above are forgotten, and the smallest
    /// threshold it has reached is returned, to be announced, unless it was
    /// announced already.
    #[verifier::loop_isolation(false)]
    pub fn evaluate(
        &mut self,
        enabled: bool,
        status: QuotaStatus,
        remaining: Remaining,
        thresholds: &Vec<u8>,
    ) -> (announce: Option<u8>)
        requires
            old(self).wf(),
        ensures
            final(self).wf(),
            match remaining {
                Remaining::AtMost(level) => if enabled && status == QuotaStatus::Available {
                    match threshold_for(thresholds@, level) {
                        Some(t) => if kept_at(old(self).sent(), level).contains(t) {
                            announce.is_none() && final(self).sent() == kept_at(
                                old(self).sent(),
                                level,
                            )
                        } else {
                            announce == Some(t) && final(self).sent() == kept_at(
                                old(self).sent(),
                                level,
                            ).insert(t)
                        },
                        None => announce.is_none() && final(self).sent() == kept_at(
                            old(self).sent(),
                            level,
                        ),
                    }
                } else {
                    announce.is_none() && final(self).sent() == old(self).sent()
                },
                Remaining::Unknown => announce.is_none() && if enabled && status
                    == QuotaStatus::Available {
                    final(self).sent() == Set::<u8>::empty()
                } else {
                    final(self).sent() == old(self).sent()
                },
                Remaining::NoWindow => announce.is_none() && final(self).sent() == old(
                    self,
                ).sent(),
            },
    {
        let available: bool = match status {
            QuotaStatus::Available => true,
            _ => false,
        };
        if !enabled || !available {
            return None;
        }
        let level: u8 = match remaining {
            Remaining::NoWindow => {
                return None;
            },
            Remaining::Unknown => {
                self.sent_thresholds = Vec::new();
                assert(self.sent_thresholds@.to_set() =~= Set::<u8>::empty());
                return None;
            },
            Remaining::AtMost(level) => level,
        };
        let ghost before = self.sent_thresholds@;
        let mut kept: Vec<u8> = Vec::new();
        let mut k: usize = 0;
        while k < self.sent_thresholds.len()
            invariant
                k <= before.len(),
                before == self.sent_thresholds@,
                before.no_duplicates(),
                kept@.no_duplicates(),
                forall|t: u8| kept@.contains(t) <==> (before.take(k as int).contains(t) && level <= t),
            decreases before.len() - k,
        {
            let t: u8 = self.sent_thresholds[k];
            let ghost kept_before = kept@;
            let ghost prefix = before.take(k as int);
            let ghost next = before.take(k as int + 1);
            assert(next =~= prefix.push(t));
            if level <= t {
                proof {
                    if kept@.contains(t) {
                        let j = choose|j: int| 0 <= j < kept_before.len() && kept_before[j] == t;
                        assert(prefix.contains(t));
                        let i = choose|i: int| 0 <= i < prefix.len() && prefix[i] == t;
                        assert(before[i] == before[k as int]);
                    }
                }
                kept.push(t);
            }
            proof {
                assert forall|x: u8| kept@.contains(x) <==> (next.contains(x) && level <= x) by {
                    if next.contains(x) {
                        let i = choose|i: int| 0 <= i < next.len() && next[i] == x;
                        if i < k {
                            assert(prefix[i] == x);
                        }
                    }
                    if prefix.contains(x) {
                        let i = choose|i: int| 0 <= i < prefix.len() && prefix[i] == x;
                        assert(next[i] == x);
                    }
                    if kept@.contains(x) {
                        let i = choose|i: int| 0 <= i < kept@.len() && kept@[i] == x;
                        if i < kept_before.len() {
                            assert(kept_before[i] == x);
                        }
                    }
                    if kept_before.contains(x) {
                        let i = choose|i: int| 0 <= i < kept_before.len() && kept_before[i] == x;
                        assert(kept@[i] == x);
                    }
                    if level <= t && x == t {
                        assert(kept@[kept@.len() - 1] == x);
                    }
                    if x == t {
                        assert(next[k as int] == x);
                    }
                }
            }
            k = k + 1;
        }
        assert(before.take(before.len() as int) =~= before);
        self.sent_thresholds = kept;
        assert(self.sent_thresholds@.to_set() =~= kept_at(before.to_set(), level));
        let mut best: Option<u8> = None;
        let mut m: usize = 0;
        while m < thresholds.len()
            invariant
                m <= thresholds@.len(),
                best == lowest_reached(thresholds@, level, m as int),
            decreases thresholds@.len() - m,
        {
            let t: u8 = thresholds[m];
            if level <= t {
                best = match best {
                    Some(r) => if r <= t {
                        Some(r)
                    } else {
                        Some(t)
                    },
                    None => Some(t),
                };
            }
            m = m + 1;
        }
        let threshold: u8 = match best {
            Some(t) => t,
            None => {
                return None;
            },
        };
        let mut n: usize = 0;
        while n < self.sent_thresholds.len()
            invariant
                n <= self.sent_thresholds@.len(),
                forall|i: int| 0 <= i < n ==> self.sent_thresholds@[i] != threshold,
            decreases self.sent_thresholds@.len() - n,
        {
            if self.sent_thresholds[n] == threshold {
                assert(self.sent_thresholds@.contains(threshold));
                return None;
            }
            n = n + 1;
        }
        let ghost current = self.sent_thresholds@;
        self.sent_thresholds.push(threshold);
        proof {
            current.lemma_push_to_set_commute(threshold);
            assert(!current.contains(threshold));
        }
        Some(threshold)
    }
}

/// The threshold announced is one of the configured thresholds, reached by
/// the level, and no smaller configured threshold is reached.
pub proof fn lemma_threshold_is_lowest_reached(thresholds: Seq<u8>, level: u8, k: int)
    requires
        0 <= k <= thresholds.len(),
    ensures
        match lowest_reached(thresholds, level, k) {
            Some(t) => level <= t && (exists|i: int| 0 <= i < k && thresholds[i] == t) && (forall|
                i: int,
            |
                0 <= i < k && level <= thresholds[i] ==> t <= thresholds[i]),
            None => forall|i: int| 0 <= i < k ==> thresholds[i] < level,
        },
    decreases k,
{
    if k > 0 {
        lemma_threshold_is_lowest_reached(thresholds, level, k - 1);
    }
}

/// A threshold once announced is not announced again while the quota has
/// not risen above it: the same level right after gives nothing.
pub proof fn lemma_announced_once(sent: Set<u8>, thresholds: Seq<u8>, level: u8)
    requires
        threshold_for(thresholds, level) is Some,
    ensures
        ({
            let t = threshold_for(thresholds, level)->0;
            let after = if kept_at(sent, level).contains(t) {
                kept_at(sent, level)
            } else {
                kept_at(sent, level).insert(t)
            };
            kept_at(after, level).contains(t)
        }),
{
    lemma_threshold_is_lowest_reached(thresholds, level, thresholds.len() as int);
}

/// Once the quota has recovered above a threshold, that threshold is forgotten
/// and can be announced again.
pub proof fn lemma_recovery_forgets(sent: Set<u8>, level: u8, t: u8)
    requires
        t < level,
    ensures
        !kept_at(sent, level).contains(t),
{
}

} // verus!
