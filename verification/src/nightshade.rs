//! The per-authority state machine of the agreement protocol: it tracks the
//! highest state seen from every authority, merges incoming states into its
//! own, raises its confidence when a super-majority supports its state,
//! detects commit, and flags equivocating peers as adversaries.

use vstd::prelude::*;

use vstd::string::StringExecFns;

use crate::state::{
    bare_ge, bare_gt, can_commit_bare, empty_bare, inc_bare, incompatible_bare,
    incompatible_states, is_real, merge, merge_bare, merge_v, AuthorityId, BareState, ProofV,
    SignedState, State, StateV,
};

verus! {

/// Outcome of feeding one peer state into the machine: the new own state
/// when the update was absorbed and improved it, nothing when it was stale,
/// or an error for rejected updates.
pub enum NSResult {
    Updated(Option<State>),
    Error(String),
}

/// Number of slots in `ss` holding `b` as their bare state.
pub open spec fn count_matching(ss: Seq<State>, b: BareState) -> int
    decreases ss.len(),
{
    if ss.len() == 0 {
        0
    } else {
        count_matching(ss.drop_last(), b) + if ss.last().bare_state == b {
            1int
        } else {
            0int
        }
    }
}

pub proof fn lemma_count_bounds(ss: Seq<State>, b: BareState)
    ensures
        0 <= count_matching(ss, b) <= ss.len(),
    decreases ss.len(),
{
    if ss.len() > 0 {
        lemma_count_bounds(ss.drop_last(), b);
    }
}

pub proof fn lemma_count_at_least_one(ss: Seq<State>, b: BareState, k: int)
    requires
        0 <= k < ss.len(),
        ss[k].bare_state == b,
    ensures
        count_matching(ss, b) >= 1,
    decreases ss.len(),
{
    lemma_count_bounds(ss.drop_last(), b);
    if k < ss.len() - 1 {
        lemma_count_at_least_one(ss.drop_last(), b, k);
    }
}

pub proof fn lemma_count_none(ss: Seq<State>, b: BareState)
    requires
        forall|j: int| 0 <= j < ss.len() ==> (#[trigger] ss[j]).bare_state != b,
    ensures
        count_matching(ss, b) == 0,
    decreases ss.len(),
{
    if ss.len() > 0 {
        lemma_count_none(ss.drop_last(), b);
    }
}

/// When at most the slot `k` can match, the count is decided by that slot.
pub proof fn lemma_count_when_only(ss: Seq<State>, b: BareState, k: int)
    requires
        0 <= k < ss.len(),
        forall|j: int| 0 <= j < ss.len() && j != k ==> (#[trigger] ss[j]).bare_state != b,
    ensures
        count_matching(ss, b) == if ss[k].bare_state == b {
            1int
        } else {
            0int
        },
    decreases ss.len(),
{
    if k == ss.len() - 1 {
        lemma_count_none(ss.drop_last(), b);
    } else {
        lemma_count_when_only(ss.drop_last(), b, k);
    }
}

/// When at most the slots `k1` and `k2` can match, the count is decided by
/// those two slots.
pub proof fn lemma_count_pair(ss: Seq<State>, b: BareState, k1: int, k2: int)
    requires
        0 <= k1 < ss.len(),
        0 <= k2 < ss.len(),
        k1 != k2,
        forall|j: int|
            0 <= j < ss.len() && j != k1 && j != k2 ==> (#[trigger] ss[j]).bare_state != b,
    ensures
        count_matching(ss, b) == (if ss[k1].bare_state == b {
            1int
        } else {
            0int
        }) + (if ss[k2].bare_state == b {
            1int
        } else {
            0int
        }),
    decreases ss.len(),
{
    let last = ss.len() - 1;
    if k1 == last {
        lemma_count_when_only(ss.drop_last(), b, k2);
    } else if k2 == last {
        lemma_count_when_only(ss.drop_last(), b, k1);
    } else {
        lemma_count_pair(ss.drop_last(), b, k1, k2);
    }
}

pub proof fn lemma_count_update(ss: Seq<State>, i: int, v: State, b: BareState)
    requires
        0 <= i < ss.len(),
    ensures
        count_matching(ss.update(i, v), b) == count_matching(ss, b) - (if ss[i].bare_state == b {
            1int
        } else {
            0int
        }) + (if v.bare_state == b {
            1int
        } else {
            0int
        }),
    decreases ss.len(),
{
    let ss2 = ss.update(i, v);
    if i == ss.len() - 1 {
        assert(ss2.drop_last() =~= ss.drop_last());
    } else {
        assert(ss2.drop_last() =~= ss.drop_last().update(i, v));
        lemma_count_update(ss.drop_last(), i, v, b);
    }
}

/// Strictly more than two thirds of `n` authorities.
pub open spec fn supermajority(n: int, count: int) -> bool {
    count > n * 2 / 3
}

/// One authority's view of the agreement: the highest state seen from each
/// authority (its own slot holding its own current state), the sticky
/// adversary flags, the number of slots equal to the own state, the cache
/// of already-verified bare states, and the commit latch.
pub struct Nightshade {
    pub owner_id: AuthorityId,
    pub num_authorities: usize,
    pub states: Vec<State>,
    pub is_adversary: Vec<bool>,
    pub best_state_counter: usize,
    pub seen_bare_states: Vec<BareState>,
    pub committed: Option<AuthorityId>,
}

impl Nightshade {
    pub open spec fn n(self) -> int {
        self.num_authorities as int
    }

    /// The machine's own current bare state.
    pub open spec fn own_bare(self) -> BareState {
        self.states@[self.owner_id as int].bare_state
    }

    /// The machine's own current state, certificates included.
    pub open spec fn own_view(self) -> StateV {
        self.states@[self.owner_id as int]@
    }

    /// An update from `from` is rejected when the peer is already flagged,
    /// or when the new state is incompatible with the one it sent before
    /// (equivocation).
    pub open spec fn rejects_as_adversary(self, from: int, s: BareState) -> bool {
        self.is_adversary@[from] || incompatible_bare(self.states@[from].bare_state, s)
    }

    /// An update is stale when it does not exceed the state already
    /// recorded for that peer.
    pub open spec fn is_stale(self, from: int, s: BareState) -> bool {
        !bare_gt(s, self.states@[from].bare_state)
    }

    /// Own bare state after merging in `s`.
    pub open spec fn merged_own(self, s: BareState) -> BareState {
        merge_bare(self.own_bare(), s)
    }

    /// Number of slots supporting the own state right after an update from
    /// a peer is merged in: the counter resets to one when the own state
    /// strictly improved, and the sender is counted when it affirmed the
    /// own state.
    pub open spec fn support_after_merge(self, s: BareState) -> int {
        (if self.merged_own(s) != self.own_bare() {
            1int
        } else {
            self.best_state_counter as int
        }) + (if s == self.merged_own(s) {
            1int
        } else {
            0int
        })
    }

    /// Whether the update raises the own primary confidence: a
    /// super-majority of authorities supports the own state.
    pub open spec fn will_increase(self, s: BareState) -> bool {
        supermajority(self.n(), self.support_after_merge(s))
    }

    /// Own bare state at the end of a fresh (non-rejected, non-stale)
    /// update carrying `s`.
    pub open spec fn own_bare_after(self, s: BareState) -> BareState {
        if self.will_increase(s) {
            inc_bare(self.merged_own(s))
        } else {
            self.merged_own(s)
        }
    }

    /// Own full state at the end of a fresh update: the merge result keeps
    /// the old certificates when the bare state did not change, and a
    /// confidence raise installs a certificate aggregated from every slot
    /// that held the merged state.
    pub open spec fn own_view_after(self, sv: StateV) -> StateV {
        let mv = if merge_bare(self.own_bare(), sv.bare) != self.own_bare() {
            merge_v(self.own_view(), sv)
        } else {
            self.own_view()
        };
        if self.will_increase(sv.bare) {
            StateV {
                bare: inc_bare(mv.bare),
                proof0: Some(
                    ProofV {
                        signature: 0,
                        parent: Seq::new(
                            self.support_after_merge(sv.bare) as nat,
                            |j: int| mv.bare,
                        ),
                    },
                ),
                proof1: mv.proof1,
            }
        } else {
            mv
        }
    }

    /// Commit latch at the end of a fresh update carrying `s`.
    pub open spec fn committed_after(self, s: BareState) -> Option<AuthorityId> {
        if self.committed is None && can_commit_bare(self.own_bare_after(s)) {
            Some(self.own_bare_after(s).endorses)
        } else {
            self.committed
        }
    }

    /// A fresh update carrying `s` would end in a committable own state
    /// that disagrees with an earlier commit. This is the safety violation
    /// the protocol treats as fatal: it can only arise when more than `f`
    /// authorities are adversarial.
    pub open spec fn commit_conflict(self, from: int, s: BareState) -> bool {
        &&& !self.rejects_as_adversary(from, s)
        &&& !self.is_stale(from, s)
        &&& can_commit_bare(self.own_bare_after(s))
        &&& self.committed matches Some(e) && e != self.own_bare_after(s).endorses
    }

    /// Well-formedness, maintained by every operation: slot vectors sized
    /// to the authority count, the own state real and dominating every
    /// recorded state, the support counter equal to the number of slots
    /// holding the own state, every peer slot's primary confidence below
    /// the machine maximum, and the commit latch consistent with the own
    /// endorsement whenever the own state is committable.
    pub open spec fn wf(self) -> bool {
        &&& self.states@.len() == self.num_authorities
        &&& self.is_adversary@.len() == self.num_authorities
        &&& self.owner_id < self.num_authorities
        &&& self.num_authorities <= usize::MAX / 2
        &&& is_real(self.own_bare())
        &&& forall|i: int|
            0 <= i < self.n() && i != self.owner_id as int ==> (#[trigger] self.states@[i]).bare_state.confidence0
                < i64::MAX
        &&& forall|i: int|
            0 <= i < self.n() ==> bare_ge(self.own_bare(), (#[trigger] self.states@[i]).bare_state)
        &&& self.best_state_counter == count_matching(self.states@, self.own_bare())
        &&& (self.committed matches Some(e) ==> (can_commit_bare(self.own_bare())
            ==> self.own_bare().endorses == e))
    }

    /// A fresh instance: the own slot endorses the owner itself, every
    /// other slot is empty, nobody is flagged, nothing is committed.
    pub fn new(owner_id: AuthorityId, num_authorities: usize) -> (r: Self)
        requires
            owner_id < num_authorities,
            num_authorities <= usize::MAX / 2,
        ensures
            r.wf(),
            r.owner_id == owner_id,
            r.num_authorities == num_authorities,
            r.best_state_counter == 1,
            r.committed is None,
            r.seen_bare_states@ == Seq::<BareState>::empty(),
            r.states@.len() == num_authorities,
            r.states@[owner_id as int]@ == (StateV {
                bare: BareState { endorses: owner_id, confidence0: 0, confidence1: 0 },
                proof0: None,
                proof1: None,
            }),
            forall|i: int|
                0 <= i < num_authorities && i != owner_id as int ==> (#[trigger] r.states@[i])@
                    == (StateV { bare: empty_bare(), proof0: None, proof1: None }),
            forall|i: int| 0 <= i < num_authorities ==> !(#[trigger] r.is_adversary@[i]),
    {
        let mut states: Vec<State> = Vec::new();
        let mut i: usize = 0;
        while i < num_authorities
            invariant
                i <= num_authorities,
                owner_id < num_authorities,
                states@.len() == i,
                i > owner_id ==> states@[owner_id as int]@ == (StateV {
                    bare: BareState { endorses: owner_id, confidence0: 0, confidence1: 0 },
                    proof0: None,
                    proof1: None,
                }),
                forall|j: int|
                    0 <= j < i && j != owner_id as int ==> (#[trigger] states@[j])@ == (StateV {
                        bare: empty_bare(),
                        proof0: None,
                        proof1: None,
                    }),
            decreases num_authorities - i,
        {
            if i == owner_id {
                states.push(State::new(i));
            } else {
                states.push(State::empty());
            }
            i = i + 1;
        }
        let mut adversary_flags: Vec<bool> = Vec::new();
        let mut k: usize = 0;
        while k < num_authorities
            invariant
                k <= num_authorities,
                adversary_flags@.len() == k,
                forall|j: int| 0 <= j < k ==> !(#[trigger] adversary_flags@[j]),
            decreases num_authorities - k,
        {
            adversary_flags.push(false);
            k = k + 1;
        }
        let r = Nightshade {
            owner_id,
            num_authorities,
            states,
            is_adversary: adversary_flags,
            best_state_counter: 1,
            seen_bare_states: Vec::new(),
            committed: None,
        };
        proof {
            assert forall|j: int|
                0 <= j < r.states@.len() && j != owner_id as int implies (#[trigger] r.states@[j]).bare_state
                != r.own_bare() by {
                assert(r.states@[j]@.bare == empty_bare());
            }
            lemma_count_when_only(r.states@, r.own_bare(), owner_id as int);
            assert forall|j: int| 0 <= j < r.n() implies bare_ge(
                r.own_bare(),
                (#[trigger] r.states@[j]).bare_state,
            ) by {
                if j != owner_id as int {
                    assert(r.states@[j]@.bare == empty_bare());
                }
            }
        }
        r
    }

    /// A copy of the own current state.
    pub fn state(&self) -> (r: State)
        requires
            self.wf(),
        ensures
            r@ == self.states@[self.owner_id as int]@,
    {
        self.states[self.owner_id].clone()
    }

    /// Whether the support counter shows a super-majority for the own
    /// state, so that the primary confidence may be raised.
    pub fn can_increase_confidence(&self) -> (r: bool)
        requires
            self.num_authorities <= usize::MAX / 2,
        ensures
            r == supermajority(self.n(), self.best_state_counter as int),
    {
        self.best_state_counter > self.num_authorities * 2 / 3
    }

    /// Whether the instance has committed.
    pub fn is_final(&self) -> (r: bool)
        ensures
            r == (self.committed is Some),
    {
        self.committed.is_some()
    }

    /// Membership test of the verification cache.
    fn seen_contains(&self, b: &BareState) -> (r: bool)
        ensures
            r == self.seen_bare_states@.contains(*b),
    {
        let mut i: usize = 0;
        while i < self.seen_bare_states.len()
            invariant
                i <= self.seen_bare_states@.len(),
                forall|j: int| 0 <= j < i ==> self.seen_bare_states@[j] != *b,
            decreases self.seen_bare_states@.len() - i,
        {
            if self.seen_bare_states[i] == *b {
                return true;
            }
            i = i + 1;
        }
        false
    }

    /// Ingest the state `state` received from the peer `authority_id`.
    ///
    /// A flagged or equivocating peer is rejected and (re)flagged; an
    /// unverifiable state is rejected; a state not exceeding the one
    /// already recorded for that peer is ignored as stale. Otherwise the
    /// state is recorded, merged into the own state, the support counter is
    /// maintained, the confidence is raised on super-majority support, and
    /// the commit latch is set once the own state clears the threshold.
    #[verifier::loop_isolation(false)]
    #[verifier::rlimit(100)]
    pub fn update_state(&mut self, authority_id: AuthorityId, state: State) -> (r: NSResult)
        requires
            old(self).wf(),
            authority_id < old(self).num_authorities,
            authority_id != old(self).owner_id,
            state.bare_state.confidence0 < i64::MAX,
            !old(self).commit_conflict(authority_id as int, state.bare_state),
        ensures
            final(self).wf(),
            final(self).owner_id == old(self).owner_id,
            final(self).num_authorities == old(self).num_authorities,
            final(self).states@.len() == old(self).states@.len(),
            final(self).own_bare().confidence0 >= old(self).own_bare().confidence0,
            forall|i: int|
                0 <= i < old(self).n() && old(self).is_adversary@[i]
                    ==> final(self).is_adversary@[i],
            old(self).committed matches Some(e) ==> final(self).committed == Some(e),
            old(self).rejects_as_adversary(authority_id as int, state.bare_state) ==> ({
                &&& r matches NSResult::Error(m) && m@ == "Not processing adversaries updates"@
                &&& final(self).is_adversary@
                    == old(self).is_adversary@.update(authority_id as int, true)
                &&& final(self).states@ == old(self).states@
                &&& final(self).best_state_counter == old(self).best_state_counter
                &&& final(self).seen_bare_states@ == old(self).seen_bare_states@
                &&& final(self).committed == old(self).committed
            }),
            !old(self).rejects_as_adversary(authority_id as int, state.bare_state) ==> ({
                &&& final(self).is_adversary@ == old(self).is_adversary@
                &&& forall|b: BareState|
                    final(self).seen_bare_states@.contains(b)
                        <==> (old(self).seen_bare_states@.contains(b) || b == state.bare_state)
            }),
            (!old(self).rejects_as_adversary(authority_id as int, state.bare_state)
                && old(self).is_stale(authority_id as int, state.bare_state)) ==> ({
                &&& r matches NSResult::Updated(o) && o is None
                &&& final(self).states@ == old(self).states@
                &&& final(self).best_state_counter == old(self).best_state_counter
                &&& final(self).committed == old(self).committed
            }),
            (!old(self).rejects_as_adversary(authority_id as int, state.bare_state)
                && !old(self).is_stale(authority_id as int, state.bare_state)) ==> ({
                &&& forall|i: int|
                    0 <= i < old(self).n() && i != authority_id as int
                        && i != old(self).owner_id as int
                        ==> final(self).states@[i] == old(self).states@[i]
                &&& final(self).states@[authority_id as int]@ == state@
                &&& final(self).states@[old(self).owner_id as int]@
                    == old(self).own_view_after(state@)
                &&& final(self).best_state_counter
                    == (if old(self).will_increase(state.bare_state) {
                        1int
                    } else {
                        old(self).support_after_merge(state.bare_state)
                    })
                &&& final(self).committed == old(self).committed_after(state.bare_state)
                &&& r matches NSResult::Updated(o) && o matches Some(st)
                    && st@ == final(self).states@[old(self).owner_id as int]@
            }),
    {
        let ghost ns0 = *old(self);
        let ghost from = authority_id as int;
        let ghost sb = state.bare_state;

        if self.is_adversary[authority_id] || incompatible_states(
            &self.states[authority_id],
            &state,
        ) {
            self.is_adversary.set(authority_id, true);
            return NSResult::Error(String::from_str("Not processing adversaries updates"));
        }

        // Verify this bare state only if it has not been verified before,
        // then remember it.
        if !self.seen_contains(&state.bare_state) {
            if state.verify() {
                self.seen_bare_states.push(state.bare_state);
                proof {
                    assert forall|b: BareState| self.seen_bare_states@.contains(b) <==> (
                    ns0.seen_bare_states@.contains(b) || b == sb) by {
                        if ns0.seen_bare_states@.contains(b) {
                            let k = choose|k: int|
                                0 <= k < ns0.seen_bare_states@.len()
                                    && ns0.seen_bare_states@[k] == b;
                            assert(self.seen_bare_states@[k] == b);
                        }
                        if b == sb {
                            assert(self.seen_bare_states@[ns0.seen_bare_states@.len() as int]
                                == b);
                        }
                        if self.seen_bare_states@.contains(b) {
                            let k = choose|k: int|
                                0 <= k < self.seen_bare_states@.len()
                                    && self.seen_bare_states@[k] == b;
                            if k < ns0.seen_bare_states@.len() {
                                assert(ns0.seen_bare_states@[k] == b);
                            }
                        }
                    }
                }
            } else {
                return NSResult::Error(String::from_str("Not valid state"));
            }
        }

        if state.bare_state > self.states[authority_id].bare_state {
            // Record the peer's state; it exceeds everything seen from it.
            self.states.set(authority_id, state.clone());
            proof {
                lemma_count_update(ns0.states@, from, self.states@[from], ns0.own_bare());
            }

            // Always take the best state seen so far.
            let new_state = merge(&self.states[self.owner_id], &state);
            let ghost m = merge_bare(ns0.own_bare(), sb);
            proof {
                crate::state::lemma_merge_v_bare(ns0.own_view(), state@);
                crate::state::lemma_merge_monotone(ns0.own_bare(), sb);
            }

            if !(new_state == self.states[self.owner_id]) {
                self.states.set(self.owner_id, new_state);
                self.best_state_counter = 1;
                proof {
                    // The merged state strictly dominates every other slot,
                    // so only the own slot and the sender's can match it.
                    assert(bare_gt(m, ns0.own_bare()));
                    assert forall|j: int|
                        0 <= j < self.states@.len() && j != self.owner_id as int && j != from
                        implies (#[trigger] self.states@[j]).bare_state != m by {
                        crate::state::lemma_gt_ge_trans(
                            m,
                            ns0.own_bare(),
                            self.states@[j].bare_state,
                        );
                        crate::state::lemma_order_total(m, self.states@[j].bare_state);
                    }
                    lemma_count_pair(self.states@, m, self.owner_id as int, from);
                }
            } else {
                proof {
                    // The merge left the own state unchanged, so the
                    // sender's old slot cannot have matched it.
                    if ns0.states@[from].bare_state == ns0.own_bare() {
                        crate::state::lemma_ge_gt_trans(m, sb, ns0.own_bare());
                        assert(false);
                    }
                }
            }
            proof {
                assert(self.own_bare() == m);
                assert(self.best_state_counter + (if sb == m {
                    1int
                } else {
                    0int
                }) == count_matching(self.states@, m));
                lemma_count_bounds(self.states@, m);
            }

            if state == self.states[self.owner_id] {
                self.best_state_counter = self.best_state_counter + 1;
            }
            proof {
                assert(self.best_state_counter == ns0.support_after_merge(sb));
                assert(self.best_state_counter == count_matching(self.states@, m));
            }

            if self.can_increase_confidence() {
                proof {
                    // A super-majority needs at least two supporters, so
                    // some peer slot holds the own bare state, whose
                    // primary confidence is below the machine maximum.
                    assert(self.best_state_counter >= 2);
                    if forall|j: int|
                        0 <= j < self.states@.len() && j != self.owner_id as int ==> (
                        #[trigger] self.states@[j]).bare_state != m {
                        lemma_count_when_only(self.states@, m, self.owner_id as int);
                        assert(false);
                    }
                    let w = choose|j: int|
                        0 <= j < self.states@.len() && j != self.owner_id as int
                            && self.states@[j].bare_state == m;
                    assert(self.states@[w].bare_state.confidence0 < i64::MAX);
                }
                let mut witness = SignedState::new();

                // Aggregate a certificate from every slot holding the own
                // state.
                let ghost own_now = self.own_bare();
                let mut i: usize = 0;
                while i < self.num_authorities
                    invariant
                        i <= self.num_authorities,
                        witness@.signature == 0,
                        witness@.parent.len() == count_matching(
                            self.states@.subrange(0, i as int),
                            own_now,
                        ),
                        forall|j: int|
                            0 <= j < witness@.parent.len() ==> witness@.parent[j] == own_now,
                    decreases self.num_authorities - i,
                {
                    proof {
                        assert(self.states@.subrange(0, i + 1).drop_last() =~= self.states@
                            .subrange(0, i as int));
                        assert(self.states@.subrange(0, i + 1).last() == self.states@[i as int]);
                    }
                    if self.states[i] == self.states[self.owner_id] {
                        witness.update(&self.states[i]);
                    }
                    i = i + 1;
                }
                proof {
                    assert(self.states@.subrange(0, self.num_authorities as int) =~= self.states@);
                    assert(witness@.parent =~= Seq::new(
                        ns0.support_after_merge(sb) as nat,
                        |j: int| m,
                    ));
                }

                let incd = self.states[self.owner_id].increase_confidence(witness);
                self.states.set(self.owner_id, incd);
                self.best_state_counter = 1;
                proof {
                    assert(bare_gt(self.own_bare(), m));
                    assert forall|j: int|
                        0 <= j < self.states@.len() && j != self.owner_id as int implies (
                    #[trigger] self.states@[j]).bare_state != self.own_bare() by {
                        crate::state::lemma_gt_ge_trans(
                            self.own_bare(),
                            m,
                            self.states@[j].bare_state,
                        );
                        crate::state::lemma_order_total(
                            self.own_bare(),
                            self.states@[j].bare_state,
                        );
                    }
                    lemma_count_when_only(self.states@, self.own_bare(), self.owner_id as int);
                }
            }

            proof {
                assert(self.own_bare() == ns0.own_bare_after(sb));
                assert(self.states@[self.owner_id as int]@ == ns0.own_view_after(state@));
                assert forall|j: int| 0 <= j < self.n() implies bare_ge(
                    self.own_bare(),
                    (#[trigger] self.states@[j]).bare_state,
                ) by {
                    if j != self.owner_id as int {
                        if j == from {
                            crate::state::lemma_merge_monotone(ns0.own_bare(), sb);
                            if ns0.will_increase(sb) {
                                crate::state::lemma_gt_ge_trans(self.own_bare(), m, sb);
                            }
                        } else {
                            crate::state::lemma_order_transitive(
                                m,
                                ns0.own_bare(),
                                self.states@[j].bare_state,
                            );
                            if ns0.will_increase(sb) {
                                crate::state::lemma_gt_ge_trans(
                                    self.own_bare(),
                                    m,
                                    self.states@[j].bare_state,
                                );
                            }
                        }
                    }
                }
            }

            if self.states[self.owner_id].can_commit() {
                if self.committed.is_none() {
                    let e = self.states[self.owner_id].endorses();
                    self.committed = Some(e);
                }
            }

            NSResult::Updated(Some(self.states[self.owner_id].clone()))
        } else {
            // A state not exceeding the recorded one is ignored; a correct
            // gossip layer may still redeliver states.
            NSResult::Updated(None)
        }
    }
}

/// The support counter always counts at least the own slot and at most
/// every authority: `1 <= best_state_counter <= num_authorities`.
pub proof fn lemma_counter_bounds(ns: Nightshade)
    requires
        ns.wf(),
    ensures
        1 <= ns.best_state_counter <= ns.num_authorities,
{
    lemma_count_bounds(ns.states@, ns.own_bare());
    lemma_count_at_least_one(ns.states@, ns.own_bare(), ns.owner_id as int);
}

/// The commit latch never disagrees with the own state: whenever the own
/// state clears the commit threshold, it endorses the committed choice.
/// Together with the latch being sticky (an `update_state` postcondition),
/// this is the per-instance half of commit safety.
pub proof fn lemma_commit_consistent(ns: Nightshade, e: AuthorityId)
    requires
        ns.wf(),
        ns.committed == Some(e),
        can_commit_bare(ns.own_bare()),
    ensures
        ns.own_bare().endorses == e,
{
}

} // verus!
