//! Subscription health and peer ranking: the record of the one upstream
//! peer the observer listens to, its four health predicates, and the
//! ranking of candidate peers by validator distance and latency.

use vstd::prelude::*;

use crate::config::ObserverConfig;
use crate::errors::ObserverError;

verus! {

/// What the observer knows of one connected peer: its identifier, its
/// distance from the validator set (a direct validator connection ranks
/// best), and its measured round-trip latency in microseconds.
#[derive(Clone, Copy, Debug, PartialEq, Eq, Structural)]
pub struct PeerInfo {
    pub peer_id: u64,
    pub validator_distance: u64,
    pub latency_us: u64,
}

/// Ranking order: by validator distance, then latency, then peer id,
/// each ascending. A total order; antisymmetric whenever ids differ.
pub open spec fn rank_le(a: PeerInfo, b: PeerInfo) -> bool {
    a.validator_distance < b.validator_distance || (a.validator_distance == b.validator_distance
        && (a.latency_us < b.latency_us || (a.latency_us == b.latency_us && a.peer_id
        <= b.peer_id)))
}

/// Strict ranking order.
pub open spec fn rank_lt(a: PeerInfo, b: PeerInfo) -> bool {
    rank_le(a, b) && !(a.validator_distance == b.validator_distance && a.latency_us == b.latency_us
        && a.peer_id == b.peer_id)
}

/// Ranking order, executable form.
pub fn exec_rank_le(a: PeerInfo, b: PeerInfo) -> (r: bool)
    ensures
        r == rank_le(a, b),
{
    a.validator_distance < b.validator_distance || (a.validator_distance == b.validator_distance
        && (a.latency_us < b.latency_us || (a.latency_us == b.latency_us && a.peer_id
        <= b.peer_id)))
}

/// Strict ranking order, executable form.
pub fn exec_rank_lt(a: PeerInfo, b: PeerInfo) -> (r: bool)
    ensures
        r == rank_lt(a, b),
{
    exec_rank_le(a, b) && !(a.validator_distance == b.validator_distance && a.latency_us
        == b.latency_us && a.peer_id == b.peer_id)
}

/// Sortedness under the ranking order.
pub open spec fn peers_ranked(s: Seq<PeerInfo>) -> bool {
    forall|i: int, j: int| 0 <= i < j < s.len() ==> rank_le(#[trigger] s[i], #[trigger] s[j])
}

/// Whether a peer is eligible as a subscription candidate: it is neither
/// the previous subscription's peer nor a peer already subscribed to us.
pub open spec fn eligible_candidate(
    p: PeerInfo,
    previous_peer: Option<u64>,
    subscribers: Seq<u64>,
) -> bool {
    (match previous_peer {
        Some(x) => p.peer_id != x,
        None => true,
    }) && !subscribers.contains(p.peer_id)
}

/// Sorts peers by (validator distance, latency, peer id), ascending.
pub fn sort_peers_by_distance_and_latency(peers: Vec<PeerInfo>) -> (r: Vec<PeerInfo>)
    ensures
        peers_ranked(r@),
        r@.to_multiset() == peers@.to_multiset(),
        r@.len() == peers@.len(),
{
    let mut remaining = peers;
    let mut out: Vec<PeerInfo> = Vec::new();
    proof {
        broadcast use vstd::seq_lib::group_to_multiset_ensures;

        assert(out@.to_multiset().add(remaining@.to_multiset()) =~= peers@.to_multiset());
    }
    while remaining.len() > 0
        invariant
            out@.to_multiset().add(remaining@.to_multiset()) == peers@.to_multiset(),
            out@.len() + remaining@.len() == peers@.len(),
            peers_ranked(out@),
            forall|p: int, q: int|
                0 <= p < out@.len() && 0 <= q < remaining@.len() ==> rank_le(
                    #[trigger] out@[p],
                    #[trigger] remaining@[q],
                ),
        decreases remaining@.len(),
    {
        // Find the best-ranked remaining peer
        let mut m: usize = 0;
        let mut j: usize = 1;
        while j < remaining.len()
            invariant
                m < j || (j == 1 && m == 0),
                j <= remaining@.len(),
                remaining@.len() > 0,
                m < remaining@.len(),
                forall|p: int| 0 <= p < j ==> rank_le(remaining@[m as int], #[trigger] remaining@[p]),
            decreases remaining@.len() - j,
        {
            if !exec_rank_le(remaining[m], remaining[j]) {
                m = j;
            }
            j = j + 1;
        }
        let ghost prev_out = out@;
        let ghost prev_remaining = remaining@;
        let best = remaining.remove(m);
        out.push(best);
        proof {
            broadcast use vstd::seq_lib::group_to_multiset_ensures;

            assert(out@.to_multiset().add(remaining@.to_multiset()) =~= peers@.to_multiset());
            assert(out@.drop_last() =~= prev_out);
            assert forall|p: int, q: int|
                0 <= p < out@.len() && 0 <= q < remaining@.len() implies rank_le(
                #[trigger] out@[p],
                #[trigger] remaining@[q],
            ) by {
                if p < out@.len() - 1 {
                } else {
                    if q < m as int {
                        assert(remaining@[q] == prev_remaining[q]);
                    } else {
                        assert(remaining@[q] == prev_remaining[q + 1]);
                    }
                }
            }
        }
    }
    out
}

/// A ranked candidate list: sorted by rank, at most `cap` long, and a
/// prefix of some full ranking of the eligible peers.
pub open spec fn ranked_candidate_list(
    c: Seq<PeerInfo>,
    peers: Seq<PeerInfo>,
    previous_peer: Option<u64>,
    subscribers: Seq<u64>,
    cap: u64,
) -> bool {
    &&& peers_ranked(c)
    &&& c.len() <= cap
    &&& exists|full: Seq<PeerInfo>|
        #![trigger full.to_multiset()]
        {
            &&& peers_ranked(full)
            &&& full.to_multiset() == peers.filter(
                |p: PeerInfo| eligible_candidate(p, previous_peer, subscribers),
            ).to_multiset()
            &&& c == full.take(vstd::math::min(cap as int, full.len() as int))
        }
}

/// Filters the connected peers down to eligible subscription candidates,
/// sorts them by rank, and caps the list at `max_candidates` — the order
/// and length of the subscribe-request walk.
pub fn sort_peers_for_subscription(
    peers: &Vec<PeerInfo>,
    previous_peer: Option<u64>,
    subscribers: &Vec<u64>,
    max_candidates: u64,
) -> (r: Vec<PeerInfo>)
    ensures
        ranked_candidate_list(r@, peers@, previous_peer, subscribers@, max_candidates),
{
    let ghost pred = |p: PeerInfo| eligible_candidate(p, previous_peer, subscribers@);
    let mut candidates: Vec<PeerInfo> = Vec::new();
    proof {
        reveal(Seq::filter);
        assert(candidates@ =~= peers@.take(0).filter(pred));
    }
    let mut i: usize = 0;
    while i < peers.len()
        invariant
            i <= peers@.len(),
            pred == (|p: PeerInfo| eligible_candidate(p, previous_peer, subscribers@)),
            candidates@ == peers@.take(i as int).filter(pred),
        decreases peers@.len() - i,
    {
        let ghost prefix = peers@.take(i as int);
        let ghost next_prefix = peers@.take(i as int + 1);
        proof {
            reveal(Seq::filter);
            assert(next_prefix.drop_last() =~= prefix);
            assert(next_prefix.last() == peers@[i as int]);
        }
        let p = peers[i];
        let excluded_prev = match previous_peer {
            Some(x) => p.peer_id == x,
            None => false,
        };
        let subscribed = crate::types::contains_u64(subscribers, p.peer_id);
        if !excluded_prev && !subscribed {
            candidates.push(p);
            proof {
                assert(candidates@ =~= prefix.filter(pred).push(peers@[i as int]));
            }
        }
        i = i + 1;
    }
    proof {
        assert(peers@.take(peers@.len() as int) =~= peers@);
    }
    let mut ranked = sort_peers_by_distance_and_latency(candidates);
    let ghost full = ranked@;
    if (ranked.len() as u64) > max_candidates {
        ranked.truncate(max_candidates as usize);
        proof {
            assert(ranked@ =~= full.take(vstd::math::min(
                max_candidates as int,
                full.len() as int,
            )));
        }
    } else {
        proof {
            assert(ranked@ =~= full.take(vstd::math::min(
                max_candidates as int,
                full.len() as int,
            )));
        }
    }
    proof {
        assert forall|i: int, j: int| 0 <= i < j < ranked@.len() implies rank_le(
            #[trigger] ranked@[i],
            #[trigger] ranked@[j],
        ) by {
            assert(ranked@[i] == full[i] && ranked@[j] == full[j]);
        }
    }
    ranked
}

/// How many peers rank strictly better than `me`.
pub open spec fn better_ranked_count(peers: Seq<PeerInfo>, me: PeerInfo) -> nat {
    peers.filter(|q: PeerInfo| rank_lt(q, me)).len()
}

/// The health record of the one active subscription: who the peer is,
/// when it was created, when it last delivered a message, and how far the
/// local storage had synced at the last progress sample.
#[derive(Clone, Copy, Debug, PartialEq, Eq, Structural)]
pub struct Subscription {
    pub config: ObserverConfig,
    pub peer_id: u64,
    pub created_at_ms: u64,
    pub last_message_time_ms: u64,
    pub last_progress_check_time_ms: u64,
    pub highest_synced_version: u64,
}

impl Subscription {
    /// A fresh subscription to `peer_id`, created at `now_ms` with the
    /// local storage at `db_version`.
    pub fn new(config: ObserverConfig, peer_id: u64, now_ms: u64, db_version: u64) -> (r:
        Subscription)
        ensures
            r == (Subscription {
                config,
                peer_id,
                created_at_ms: now_ms,
                last_message_time_ms: now_ms,
                last_progress_check_time_ms: now_ms,
                highest_synced_version: db_version,
            }),
    {
        Subscription {
            config,
            peer_id,
            created_at_ms: now_ms,
            last_message_time_ms: now_ms,
            last_progress_check_time_ms: now_ms,
            highest_synced_version: db_version,
        }
    }

    /// Notes a direct-send message received at `now_ms`.
    pub fn record_message_receipt(&mut self, now_ms: u64)
        ensures
            *final(self) == (Subscription { last_message_time_ms: now_ms, ..*old(self) }),
    {
        self.last_message_time_ms = now_ms;
    }

    /// Timeout check: the subscription fails when more than the
    /// configured window has passed since the last received message.
    pub fn check_subscription_timeout(&self, now_ms: u64) -> (r: Result<(), ObserverError>)
        requires
            now_ms >= self.last_message_time_ms,
        ensures
            r == if now_ms - self.last_message_time_ms > self.config.subscription_timeout_ms {
                Err::<(), ObserverError>(ObserverError::SubscriptionTimeout)
            } else {
                Ok::<(), ObserverError>(())
            },
    {
        if now_ms - self.last_message_time_ms > self.config.subscription_timeout_ms {
            Err(ObserverError::SubscriptionTimeout)
        } else {
            Ok(())
        }
    }

    /// Storage progress check: the local synced version must advance
    /// between samples spaced at least the configured interval apart.
    /// An advance refreshes the sample; a sample within the interval is
    /// not yet judged; otherwise the subscription has stalled.
    pub fn check_syncing_progress(&mut self, now_ms: u64, db_version: u64) -> (r: Result<
        (),
        ObserverError,
    >)
        requires
            now_ms >= old(self).last_progress_check_time_ms,
        ensures
            db_version > old(self).highest_synced_version ==> (*final(self) == (Subscription {
                highest_synced_version: db_version,
                last_progress_check_time_ms: now_ms,
                ..*old(self)
            }) && r == Ok::<(), ObserverError>(())),
            db_version <= old(self).highest_synced_version ==> (*final(self) == *old(self) && r
                == if now_ms - old(self).last_progress_check_time_ms
                < old(self).config.db_progress_check_interval_ms {
                Ok::<(), ObserverError>(())
            } else {
                Err::<(), ObserverError>(ObserverError::SubscriptionProgressStopped)
            }),
    {
        if db_version > self.highest_synced_version {
            self.highest_synced_version = db_version;
            self.last_progress_check_time_ms = now_ms;
            Ok(())
        } else if now_ms - self.last_progress_check_time_ms
            < self.config.db_progress_check_interval_ms {
            Ok(())
        } else {
            Err(ObserverError::SubscriptionProgressStopped)
        }
    }

    /// Optimality check: the subscribed peer must still rank within the
    /// top `max_concurrent_subscriptions` of the connected peers. The
    /// peer set comes keyed by peer id, so the ids are distinct.
    pub fn check_subscription_peer_optimality(&self, peers: &Vec<PeerInfo>) -> (r: Result<
        (),
        ObserverError,
    >)
        requires
            forall|i: int, j: int|
                0 <= i < j < peers@.len() ==> (#[trigger] peers@[i]).peer_id
                    != (#[trigger] peers@[j]).peer_id,
        ensures
            r == ({
                let me = peers@.filter(|q: PeerInfo| q.peer_id == self.peer_id);
                if me.len() == 0 {
                    Err::<(), ObserverError>(ObserverError::SubscriptionSuboptimal)
                } else if better_ranked_count(peers@, me[0])
                    < self.config.max_concurrent_subscriptions {
                    Ok::<(), ObserverError>(())
                } else {
                    Err::<(), ObserverError>(ObserverError::SubscriptionSuboptimal)
                }
            }),
    {
        let ghost me_pred = |q: PeerInfo| q.peer_id == self.peer_id;
        // Find this subscription's own entry among the connected peers.
        let mut found: Option<PeerInfo> = None;
        proof {
            reveal(Seq::filter);
            assert(peers@.take(0).filter(me_pred) =~= Seq::<PeerInfo>::empty());
        }
        let mut i: usize = 0;
        while i < peers.len()
            invariant
                i <= peers@.len(),
                me_pred == (|q: PeerInfo| q.peer_id == self.peer_id),
                found == if peers@.take(i as int).filter(me_pred).len() > 0 {
                    Some(peers@.take(i as int).filter(me_pred)[0])
                } else {
                    None::<PeerInfo>
                },
            decreases peers@.len() - i,
        {
            let ghost prefix = peers@.take(i as int);
            let ghost next_prefix = peers@.take(i as int + 1);
            proof {
                reveal(Seq::filter);
                assert(next_prefix.drop_last() =~= prefix);
                assert(next_prefix.last() == peers@[i as int]);
            }
            if peers[i].peer_id == self.peer_id {
                if found.is_none() {
                    found = Some(peers[i]);
                }
                proof {
                    if prefix.filter(me_pred).len() == 0 {
                        assert(next_prefix.filter(me_pred) =~= prefix.filter(me_pred).push(
                            peers@[i as int],
                        ));
                        assert(next_prefix.filter(me_pred)[0] == peers@[i as int]);
                    }
                }
            }
            i = i + 1;
        }
        proof {
            assert(peers@.take(peers@.len() as int) =~= peers@);
        }
        let me = match found {
            Some(p) => p,
            None => {
                return Err(ObserverError::SubscriptionSuboptimal);
            },
        };
        // Count the peers that rank strictly better.
        let ghost lt_pred = |q: PeerInfo| rank_lt(q, me);
        let mut count: u64 = 0;
        proof {
            reveal(Seq::filter);
            assert(peers@.take(0).filter(lt_pred) =~= Seq::<PeerInfo>::empty());
        }
        let mut j: usize = 0;
        while j < peers.len()
            invariant
                j <= peers@.len(),
                lt_pred == (|q: PeerInfo| rank_lt(q, me)),
                count == peers@.take(j as int).filter(lt_pred).len(),
                count <= j,
            decreases peers@.len() - j,
        {
            let ghost prefix = peers@.take(j as int);
            let ghost next_prefix = peers@.take(j as int + 1);
            proof {
                reveal(Seq::filter);
                assert(next_prefix.drop_last() =~= prefix);
                assert(next_prefix.last() == peers@[j as int]);
            }
            if exec_rank_lt(peers[j], me) {
                proof {
                    assert(next_prefix.filter(lt_pred) =~= prefix.filter(lt_pred).push(
                        peers@[j as int],
                    ));
                }
                count = count + 1;
            }
            j = j + 1;
        }
        proof {
            assert(peers@.take(peers@.len() as int) =~= peers@);
        }
        if count < self.config.max_concurrent_subscriptions {
            Ok(())
        } else {
            Err(ObserverError::SubscriptionSuboptimal)
        }
    }
}

/// A response to an outbound request, as the observer classifies it.
#[derive(Clone, Copy, Debug, PartialEq, Eq, Structural)]
pub enum PeerResponse {
    /// The peer acknowledged a subscribe request.
    SubscribeAck,
    /// The peer acknowledged an unsubscribe request.
    UnsubscribeAck,
    /// Any other variant: a protocol error.
    Unexpected,
}

/// Whether a response accepts a subscribe request: only `SubscribeAck`
/// does; anything else means trying the next candidate.
pub fn subscribe_request_accepted(r: &PeerResponse) -> (accepted: bool)
    ensures
        accepted == (*r == PeerResponse::SubscribeAck),
{
    match r {
        PeerResponse::SubscribeAck => true,
        _ => false,
    }
}


/// Whether some connected peer has id `peer`.
pub open spec fn spec_peer_connected(peers: Seq<PeerInfo>, peer: u64) -> bool {
    exists|i: int| 0 <= i < peers.len() && (#[trigger] peers[i]).peer_id == peer
}

/// Whether some connected peer has id `peer` (executable form).
pub fn peers_contain(peers: &Vec<PeerInfo>, peer: u64) -> (r: bool)
    ensures
        r == spec_peer_connected(peers@, peer),
{
    let mut i: usize = 0;
    while i < peers.len()
        invariant
            i <= peers.len(),
            forall|j: int| 0 <= j < i ==> (#[trigger] peers@[j]).peer_id != peer,
        decreases peers.len() - i,
    {
        if peers[i].peer_id == peer {
            return true;
        }
        i = i + 1;
    }
    false
}

} // verus!
