//! The state algebra of the agreement protocol: bare states with their
//! total order, signed certificates, full states, merging and compatibility.

use vstd::prelude::*;

use core::cmp::Ordering;

verus! {

/// Identifier of an authority taking part in the agreement.
pub type AuthorityId = usize;

/// Aggregate signature value. It stands in for an aggregated BLS
/// attestation; the verifier and aggregator are external collaborators, and
/// the stub scheme shipped with the core signs everything with zero.
pub type BLSSignature = u64;

/// Gap between primary and secondary confidence at which a state commits.
pub const COMMIT_THRESHOLD: i64 = 3;

/// The unsigned portion of a consensus state: the endorsed authority plus a
/// primary and a secondary confidence counter. An empty bare state (nothing
/// received from a peer yet) holds -1 in both counters.
#[derive(Debug, Clone, Copy, PartialEq, Eq, Hash, Structural)]
pub struct BareState {
    pub endorses: AuthorityId,
    pub confidence0: i64,
    pub confidence1: i64,
}

/// Total order on bare states: higher primary confidence wins; ties are
/// broken in favour of the numerically smaller endorsed id, then of the
/// higher secondary confidence.
pub open spec fn bare_gt(a: BareState, b: BareState) -> bool {
    ||| a.confidence0 > b.confidence0
    ||| (a.confidence0 == b.confidence0 && a.endorses < b.endorses)
    ||| (a.confidence0 == b.confidence0 && a.endorses == b.endorses
            && a.confidence1 > b.confidence1)
}

pub open spec fn bare_ge(a: BareState, b: BareState) -> bool {
    bare_gt(a, b) || a == b
}

/// The bare state that marks "nothing received from this peer yet".
pub open spec fn empty_bare() -> BareState {
    BareState { endorses: 0, confidence0: -1i64, confidence1: -1i64 }
}

/// A real (non-empty) bare state has non-negative confidence counters.
pub open spec fn is_real(b: BareState) -> bool {
    b.confidence0 >= 0 && b.confidence1 >= 0
}

/// A state commits once its primary confidence leads the best known rival
/// by the commit threshold.
pub open spec fn can_commit_bare(b: BareState) -> bool {
    b.confidence0 >= b.confidence1 + COMMIT_THRESHOLD
}

/// The bare state with primary confidence raised by one.
pub open spec fn inc_bare(b: BareState) -> BareState {
    BareState {
        endorses: b.endorses,
        confidence0: (b.confidence0 + 1) as i64,
        confidence1: b.confidence1,
    }
}

impl BareState {
    /// A fresh endorsement of `endorses`, both confidences at zero.
    pub fn new(endorses: AuthorityId) -> (r: Self)
        ensures
            r == (BareState { endorses, confidence0: 0, confidence1: 0 }),
    {
        BareState { endorses, confidence0: 0, confidence1: 0 }
    }

    pub fn empty() -> (r: Self)
        ensures
            r == empty_bare(),
    {
        BareState { endorses: 0, confidence0: -1, confidence1: -1 }
    }
}

impl PartialOrd for BareState {
    fn partial_cmp(&self, other: &BareState) -> (r: Option<Ordering>) {
        if self.confidence0 != other.confidence0 {
            if self.confidence0 > other.confidence0 {
                Some(Ordering::Greater)
            } else {
                Some(Ordering::Less)
            }
        } else if self.endorses != other.endorses {
            if self.endorses < other.endorses {
                Some(Ordering::Greater)
            } else {
                Some(Ordering::Less)
            }
        } else if self.confidence1 != other.confidence1 {
            if self.confidence1 > other.confidence1 {
                Some(Ordering::Greater)
            } else {
                Some(Ordering::Less)
            }
        } else {
            Some(Ordering::Equal)
        }
    }
}

impl vstd::std_specs::cmp::PartialOrdSpecImpl for BareState {
    open spec fn obeys_partial_cmp_spec() -> bool {
        true
    }

    open spec fn partial_cmp_spec(&self, other: &BareState) -> Option<Ordering> {
        if bare_gt(*self, *other) {
            Some(Ordering::Greater)
        } else if bare_gt(*other, *self) {
            Some(Ordering::Less)
        } else {
            Some(Ordering::Equal)
        }
    }
}

/// Mathematical value of a certificate: the aggregate signature and the
/// bare states it signs.
#[verifier::ext_equal]
pub ghost struct ProofV {
    pub signature: u64,
    pub parent: Seq<BareState>,
}

/// A certificate witnessing a claim: an aggregate signature combined from
/// every contributing authority, over the bare states they held.
#[derive(Debug, PartialEq)]
pub struct SignedState {
    pub signature: BLSSignature,
    pub parent: Vec<BareState>,
}

impl View for SignedState {
    type V = ProofV;

    open spec fn view(&self) -> ProofV {
        ProofV { signature: self.signature, parent: self.parent@ }
    }
}

impl Clone for SignedState {
    fn clone(&self) -> (r: Self)
        ensures
            r@ == self@,
    {
        let mut parent: Vec<BareState> = Vec::new();
        let mut i: usize = 0;
        while i < self.parent.len()
            invariant
                i <= self.parent@.len(),
                parent@ == self.parent@.subrange(0, i as int),
            decreases self.parent@.len() - i,
        {
            parent.push(self.parent[i]);
            proof {
                assert(parent@ =~= self.parent@.subrange(0, i + 1));
            }
            i = i + 1;
        }
        proof {
            assert(parent@ =~= self.parent@);
        }
        SignedState { signature: self.signature, parent }
    }
}

impl SignedState {
    /// An empty certificate: no contributors, neutral aggregate.
    pub fn new() -> (r: Self)
        ensures
            r@ == (ProofV { signature: 0, parent: Seq::empty() }),
    {
        SignedState { signature: 0, parent: Vec::new() }
    }

    /// Record `state` as a contributor: append its bare state and fold its
    /// signature into the aggregate. Under the stub scheme every signature
    /// is zero, so the aggregate stays unchanged.
    pub fn update(&mut self, state: &State)
        ensures
            final(self)@.parent == old(self)@.parent.push(state.bare_state),
            final(self)@.signature == old(self)@.signature,
    {
        let sig = state.get_signature();
        proof {
            assert(forall|x: u64| #[trigger] (x ^ 0u64) == x) by (bit_vector);
        }
        self.signature = self.signature ^ sig;
        self.parent.push(state.bare_state);
    }
}

/// Mathematical value of a full state: its bare state and the values of its
/// two optional certificates.
#[verifier::ext_equal]
pub ghost struct StateV {
    pub bare: BareState,
    pub proof0: Option<ProofV>,
    pub proof1: Option<ProofV>,
}

pub open spec fn proof_opt_view(o: Option<SignedState>) -> Option<ProofV> {
    match o {
        Some(p) => Some(p@),
        None => None,
    }
}

/// A consensus state: a bare state plus the optional certificates that
/// witness its two confidence counters. Equality and ordering lift from the
/// bare state alone; proofs are not part of identity.
#[derive(Debug)]
pub struct State {
    pub bare_state: BareState,
    pub proof0: Option<SignedState>,
    pub proof1: Option<SignedState>,
}

impl View for State {
    type V = StateV;

    open spec fn view(&self) -> StateV {
        StateV {
            bare: self.bare_state,
            proof0: proof_opt_view(self.proof0),
            proof1: proof_opt_view(self.proof1),
        }
    }
}

fn clone_proof_opt(o: &Option<SignedState>) -> (r: Option<SignedState>)
    ensures
        proof_opt_view(r) == proof_opt_view(*o),
{
    match o {
        Some(p) => Some(p.clone()),
        None => None,
    }
}

impl Clone for State {
    fn clone(&self) -> (r: Self)
        ensures
            r@ == self@,
    {
        State {
            bare_state: self.bare_state,
            proof0: clone_proof_opt(&self.proof0),
            proof1: clone_proof_opt(&self.proof1),
        }
    }
}

impl PartialEq for State {
    fn eq(&self, other: &State) -> (r: bool) {
        self.bare_state == other.bare_state
    }
}

impl vstd::std_specs::cmp::PartialEqSpecImpl for State {
    open spec fn obeys_eq_spec() -> bool {
        true
    }

    open spec fn eq_spec(&self, other: &State) -> bool {
        self.bare_state == other.bare_state
    }
}

impl PartialOrd for State {
    fn partial_cmp(&self, other: &State) -> (r: Option<Ordering>) {
        self.bare_state.partial_cmp(&other.bare_state)
    }
}

impl vstd::std_specs::cmp::PartialOrdSpecImpl for State {
    open spec fn obeys_partial_cmp_spec() -> bool {
        true
    }

    open spec fn partial_cmp_spec(&self, other: &State) -> Option<Ordering> {
        if bare_gt(self.bare_state, other.bare_state) {
            Some(Ordering::Greater)
        } else if bare_gt(other.bare_state, self.bare_state) {
            Some(Ordering::Less)
        } else {
            Some(Ordering::Equal)
        }
    }
}

impl State {
    /// A fresh endorsement of `endorses`, with no certificates yet.
    pub fn new(endorses: AuthorityId) -> (r: Self)
        ensures
            r@ == (StateV {
                bare: BareState { endorses, confidence0: 0, confidence1: 0 },
                proof0: None,
                proof1: None,
            }),
    {
        State { bare_state: BareState::new(endorses), proof0: None, proof1: None }
    }

    pub fn empty() -> (r: Self)
        ensures
            r@ == (StateV { bare: empty_bare(), proof0: None, proof1: None }),
    {
        State { bare_state: BareState::empty(), proof0: None, proof1: None }
    }

    /// Copy of this state with primary confidence raised by one, the
    /// supplied certificate installed as its witness, and the endorsement
    /// and rival evidence preserved.
    pub fn increase_confidence(&self, proof: SignedState) -> (r: Self)
        requires
            self.bare_state.confidence0 < i64::MAX,
        ensures
            r@ == (StateV {
                bare: inc_bare(self.bare_state),
                proof0: Some(proof@),
                proof1: self@.proof1,
            }),
    {
        State {
            bare_state: BareState {
                endorses: self.bare_state.endorses,
                confidence0: self.bare_state.confidence0 + 1,
                confidence1: self.bare_state.confidence1,
            },
            proof0: Some(proof),
            proof1: clone_proof_opt(&self.proof1),
        }
    }

    /// Whether the primary confidence leads the best known rival by the
    /// commit threshold.
    pub fn can_commit(&self) -> (r: bool)
        ensures
            r == can_commit_bare(self.bare_state),
    {
        (self.bare_state.confidence0 as i128) >= (self.bare_state.confidence1 as i128)
            + (COMMIT_THRESHOLD as i128)
    }

    /// Signature verification hook. Aggregate verification is an external
    /// collaborator's job; the stub scheme shipped with the core accepts
    /// every state.
    pub fn verify(&self) -> (r: bool)
        ensures
            r == true,
    {
        true
    }

    /// Signature hook of the stub scheme: every authority signs with zero.
    pub fn get_signature(&self) -> (r: BLSSignature)
        ensures
            r == 0u64,
    {
        0
    }

    /// The authority this state endorses.
    pub fn endorses(&self) -> (r: AuthorityId)
        ensures
            r == self.bare_state.endorses,
    {
        self.bare_state.endorses
    }
}

/// The greater of two bare states; on equality the second one.
pub open spec fn max_bare(a: BareState, b: BareState) -> BareState {
    if bare_gt(a, b) {
        a
    } else {
        b
    }
}

/// Bare-state part of a merge: the greater input, with its secondary
/// confidence raised by the strongest rival evidence the lesser input
/// carries. A lesser input for a different proposer is itself a rival, so
/// its primary confidence is the candidate; one for the same proposer only
/// contributes the rival evidence it already holds.
pub open spec fn merge_bare(a: BareState, b: BareState) -> BareState {
    let hi = max_bare(a, b);
    let lo = if bare_gt(a, b) {
        b
    } else {
        a
    };
    if hi.endorses != lo.endorses {
        if lo.confidence0 > hi.confidence1 {
            BareState {
                endorses: hi.endorses,
                confidence0: hi.confidence0,
                confidence1: lo.confidence0,
            }
        } else {
            hi
        }
    } else {
        if lo.confidence1 > hi.confidence1 {
            BareState {
                endorses: hi.endorses,
                confidence0: hi.confidence0,
                confidence1: lo.confidence1,
            }
        } else {
            hi
        }
    }
}

/// Full value of a merge, certificates included: when the secondary
/// confidence is raised, the witness of the evidence that raised it moves
/// into the rival slot of the result.
pub open spec fn merge_v(a: StateV, b: StateV) -> StateV {
    let hi = if bare_gt(a.bare, b.bare) {
        a
    } else {
        b
    };
    let lo = if bare_gt(a.bare, b.bare) {
        b
    } else {
        a
    };
    if hi.bare.endorses != lo.bare.endorses {
        if lo.bare.confidence0 > hi.bare.confidence1 {
            StateV {
                bare: BareState {
                    endorses: hi.bare.endorses,
                    confidence0: hi.bare.confidence0,
                    confidence1: lo.bare.confidence0,
                },
                proof0: hi.proof0,
                proof1: lo.proof0,
            }
        } else {
            hi
        }
    } else {
        if lo.bare.confidence1 > hi.bare.confidence1 {
            StateV {
                bare: BareState {
                    endorses: hi.bare.endorses,
                    confidence0: hi.bare.confidence0,
                    confidence1: lo.bare.confidence1,
                },
                proof0: hi.proof0,
                proof1: lo.proof1,
            }
        } else {
            hi
        }
    }
}

/// Best state combining the knowledge of two inputs.
pub fn merge(state0: &State, state1: &State) -> (r: State)
    ensures
        r@ == merge_v(state0@, state1@),
        r.bare_state == merge_bare(state0.bare_state, state1.bare_state),
{
    let s0_hi = state0.bare_state > state1.bare_state;
    let mut max_state = if s0_hi {
        state0.clone()
    } else {
        state1.clone()
    };
    let min_state = if s0_hi {
        state1
    } else {
        state0
    };
    if max_state.bare_state.endorses != min_state.bare_state.endorses {
        if min_state.bare_state.confidence0 > max_state.bare_state.confidence1 {
            max_state.bare_state.confidence1 = min_state.bare_state.confidence0;
            max_state.proof1 = clone_proof_opt(&min_state.proof0);
        }
    } else {
        if min_state.bare_state.confidence1 > max_state.bare_state.confidence1 {
            max_state.bare_state.confidence1 = min_state.bare_state.confidence1;
            max_state.proof1 = clone_proof_opt(&min_state.proof1);
        }
    }
    max_state
}

pub open spec fn incompatible_bare(a: BareState, b: BareState) -> bool {
    merge_bare(a, b) != max_bare(a, b)
}

/// Two states are incompatible when one carries rival evidence that
/// strictly improves the other: their merge exceeds their maximum. An
/// authority may not advocate two mutually incompatible states.
pub fn incompatible_states(state0: &State, state1: &State) -> (r: bool)
    ensures
        r == incompatible_bare(state0.bare_state, state1.bare_state),
{
    let merged = merge(state0, state1);
    let max_state = if state0.bare_state > state1.bare_state {
        state0
    } else {
        state1
    };
    !(merged == *max_state)
}

/// The bare-state order is total, irreflexive in its strict part, and
/// antisymmetric.
pub proof fn lemma_order_total(a: BareState, b: BareState)
    ensures
        bare_gt(a, b) || bare_gt(b, a) || a == b,
        !(bare_gt(a, b) && bare_gt(b, a)),
        !bare_gt(a, a),
{
}

/// The bare-state order is transitive.
pub proof fn lemma_order_transitive(a: BareState, b: BareState, c: BareState)
    requires
        bare_ge(a, b),
        bare_ge(b, c),
    ensures
        bare_ge(a, c),
{
}

pub proof fn lemma_gt_ge_trans(a: BareState, b: BareState, c: BareState)
    requires
        bare_gt(a, b),
        bare_ge(b, c),
    ensures
        bare_gt(a, c),
{
}

pub proof fn lemma_ge_gt_trans(a: BareState, b: BareState, c: BareState)
    requires
        bare_ge(a, b),
        bare_gt(b, c),
    ensures
        bare_gt(a, c),
{
}

/// The bare state of a full merge is the bare-state merge.
pub proof fn lemma_merge_v_bare(a: StateV, b: StateV)
    ensures
        merge_v(a, b).bare == merge_bare(a.bare, b.bare),
{
}

/// The merge of two states does not depend on their order.
pub proof fn lemma_merge_commutative(a: BareState, b: BareState)
    ensures
        merge_bare(a, b) == merge_bare(b, a),
{
}

/// Merging never loses ground: the merge dominates both inputs, and it
/// strictly exceeds their maximum exactly when the two are incompatible.
pub proof fn lemma_merge_monotone(a: BareState, b: BareState)
    ensures
        bare_ge(merge_bare(a, b), max_bare(a, b)),
        bare_ge(max_bare(a, b), a),
        bare_ge(max_bare(a, b), b),
        incompatible_bare(a, b) <==> bare_gt(merge_bare(a, b), max_bare(a, b)),
{
}

/// An empty state compares strictly less than every real state.
pub proof fn lemma_empty_least(b: BareState)
    requires
        is_real(b),
    ensures
        bare_gt(b, empty_bare()),
{
}

/// Tie-break law: among states of equal primary confidence, the one with
/// the numerically smaller endorsed id is the greater.
pub proof fn lemma_tie_break(a: BareState, b: BareState)
    requires
        a.confidence0 == b.confidence0,
        a.endorses < b.endorses,
    ensures
        bare_gt(a, b),
{
}

/// A state is compatible with itself, and resending a recorded state is
/// stale: after an update records a state, repeating the identical update
/// passes the adversary screen and is ignored by the staleness guard.
pub proof fn lemma_repeat_update_stale(b: BareState)
    ensures
        !incompatible_bare(b, b),
        !bare_gt(b, b),
{
}

} // verus!
