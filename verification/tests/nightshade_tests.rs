use nightshade::{
    incompatible_states, merge, BareState, NSResult, Nightshade, SignedState, State,
};

fn nightshade_all_sync(num_authorities: usize, num_rounds: usize) {
    let mut ns = vec![];

    for i in 0..num_authorities {
        ns.push(Nightshade::new(i, num_authorities));
    }

    for _ in 0..num_rounds {
        let mut states = vec![];

        for i in 0..num_authorities {
            let state = ns[i].state();
            states.push(state);
        }

        for i in 0..num_authorities {
            for j in 0..num_authorities {
                if i != j {
                    ns[i].update_state(j, states[j].clone());
                }
            }
        }
    }

    for i in 0..num_authorities {
        let m = ns[i].state();
        assert_eq!(m.can_commit(), true);
    }
}

#[test]
fn test_nightshade_two_authority() {
    nightshade_all_sync(2, 5);
}

#[test]
fn test_nightshade_three_authority() {
    nightshade_all_sync(3, 5);
}

#[test]
fn test_nightshade_basics() {
    let ns0 = Nightshade::new(0, 2);
    let mut ns1 = Nightshade::new(1, 2);
    let state1 = ns1.state();
    assert_eq!(state1.endorses(), 1);
    let state0 = ns0.state();
    ns1.update_state(0, state0.clone());
    let state1 = ns1.state();
    assert_eq!(state1.endorses(), 0);
}

#[test]
fn test_nightshade_basics_confidence() {
    let num_authorities: usize = 4;

    let mut ns = vec![];

    for i in 0..num_authorities {
        ns.push(Nightshade::new(i, num_authorities));
    }

    for i in 2..4 {
        let state1 = ns[1].state();
        println!("{:?} -> {:?}", i, state1);
        ns[i].update_state(1, state1);
        let state_i = ns[i].state();
        assert_eq!(state_i.endorses(), 1);
        println!("{:?}", state_i);

        ns[1].update_state(i, state_i);
        let state1 = ns[1].state();
        println!("{:?} -> {:?}", i, state1);

        // After the update from authority 2 the expected confidence is 0,
        // since only authorities 1 and 2 endorse outcome 1. After the
        // update from authority 3, three authorities endorse 1 with the
        // triplet (1, 0, 0), so confidence must be 1.
        assert_eq!(state1.endorses(), 1);
        assert_eq!(state1.bare_state.confidence0, (i - 2) as i64);
    }
}

#[test]
fn test_increase_confidence_roundtrip() {
    let s = State::new(2);
    let s2 = s.increase_confidence(SignedState::new());
    assert_eq!(s2.bare_state.confidence0, 1);
    assert_eq!(s2.bare_state.endorses, 2);
    assert_eq!(s2.bare_state.confidence1, 0);
    assert!(s2.proof0.is_some());
    assert!(s2.proof1.is_none());
}

#[test]
fn test_empty_less_than_real() {
    let empty = BareState::empty();
    assert!(BareState::new(3) > empty);
    assert!(State::new(0).bare_state > State::empty().bare_state);
    let high = BareState { endorses: 7, confidence0: 5, confidence1: 2 };
    assert!(high > empty);
    assert!(!(empty > high));
}

#[test]
fn test_tie_break_smaller_id_greater() {
    let a = BareState { endorses: 1, confidence0: 2, confidence1: 0 };
    let b = BareState { endorses: 3, confidence0: 2, confidence1: 0 };
    assert!(a > b);
    assert!(!(b > a));
}

#[test]
fn test_commit_threshold_exact() {
    let two_ahead = State {
        bare_state: BareState { endorses: 0, confidence0: 4, confidence1: 2 },
        proof0: Some(SignedState::new()),
        proof1: Some(SignedState::new()),
    };
    assert!(!two_ahead.can_commit());
    let three_ahead = State {
        bare_state: BareState { endorses: 0, confidence0: 5, confidence1: 2 },
        proof0: Some(SignedState::new()),
        proof1: Some(SignedState::new()),
    };
    assert!(three_ahead.can_commit());
}

#[test]
fn test_merge_commutative_and_monotone() {
    let s1 = State {
        bare_state: BareState { endorses: 1, confidence0: 1, confidence1: 0 },
        proof0: Some(SignedState::new()),
        proof1: None,
    };
    let s2 = State {
        bare_state: BareState { endorses: 2, confidence0: 1, confidence1: 0 },
        proof0: Some(SignedState::new()),
        proof1: None,
    };
    let m12 = merge(&s1, &s2);
    let m21 = merge(&s2, &s1);
    assert_eq!(m12.bare_state, m21.bare_state);
    assert_eq!(m12.bare_state.endorses, 1);
    assert_eq!(m12.bare_state.confidence0, 1);
    assert_eq!(m12.bare_state.confidence1, 1);
    assert!(m12.bare_state > s1.bare_state);
    assert!(m12.bare_state > s2.bare_state);
    assert!(incompatible_states(&s1, &s2));
    assert!(!incompatible_states(&s1, &s1));
}

#[test]
fn test_update_twice_second_stale() {
    let ns0 = Nightshade::new(0, 3);
    let mut ns1 = Nightshade::new(1, 3);
    let s0 = ns0.state();
    let r1 = ns1.update_state(0, s0.clone());
    assert!(matches!(r1, NSResult::Updated(Some(_))));
    let own_after_first = ns1.state();
    let r2 = ns1.update_state(0, s0.clone());
    assert!(matches!(r2, NSResult::Updated(None)));
    let own_after_second = ns1.state();
    assert_eq!(own_after_first.bare_state, own_after_second.bare_state);
}

#[test]
fn test_stale_update_ignored() {
    let mut ns1 = Nightshade::new(1, 3);
    let newer = State {
        bare_state: BareState { endorses: 0, confidence0: 1, confidence1: 0 },
        proof0: Some(SignedState::new()),
        proof1: None,
    };
    let r1 = ns1.update_state(0, newer);
    assert!(matches!(r1, NSResult::Updated(Some(_))));
    let own_before = ns1.state();
    let counter_before = ns1.best_state_counter;
    let older = State {
        bare_state: BareState { endorses: 0, confidence0: 0, confidence1: 0 },
        proof0: None,
        proof1: None,
    };
    let r2 = ns1.update_state(0, older);
    assert!(matches!(r2, NSResult::Updated(None)));
    assert_eq!(ns1.state().bare_state, own_before.bare_state);
    assert_eq!(ns1.best_state_counter, counter_before);
    assert!(ns1.committed.is_none());
}

#[test]
fn test_equivocation_marks_adversary() {
    let mut ns3 = Nightshade::new(3, 4);
    let s1 = State {
        bare_state: BareState { endorses: 1, confidence0: 1, confidence1: 0 },
        proof0: Some(SignedState::new()),
        proof1: None,
    };
    let r1 = ns3.update_state(0, s1);
    assert!(matches!(r1, NSResult::Updated(Some(_))));
    assert!(!ns3.is_adversary[0]);

    // Same peer now advocates a different proposer at the same confidence:
    // the two states are incompatible.
    let s2 = State {
        bare_state: BareState { endorses: 2, confidence0: 1, confidence1: 0 },
        proof0: Some(SignedState::new()),
        proof1: None,
    };
    let r2 = ns3.update_state(0, s2);
    match r2 {
        NSResult::Error(m) => assert_eq!(m, "Not processing adversaries updates"),
        _ => panic!("equivocation must be rejected"),
    }
    assert!(ns3.is_adversary[0]);

    // A later valid-looking update from the flagged peer is still rejected.
    let s3 = State {
        bare_state: BareState { endorses: 1, confidence0: 2, confidence1: 0 },
        proof0: Some(SignedState::new()),
        proof1: None,
    };
    let r3 = ns3.update_state(0, s3);
    assert!(matches!(r3, NSResult::Error(_)));
    assert!(ns3.is_adversary[0]);
}

#[test]
fn test_new_instance_state() {
    let ns = Nightshade::new(2, 5);
    let s = ns.state();
    assert_eq!(s.endorses(), 2);
    assert_eq!(s.bare_state.confidence0, 0);
    assert_eq!(s.bare_state.confidence1, 0);
    assert!(s.proof0.is_none());
    assert!(s.proof1.is_none());
    assert!(!ns.is_final());
    assert_eq!(ns.best_state_counter, 1);
    assert!(!ns.can_increase_confidence());
    assert!(ns.committed.is_none());
}

#[test]
fn test_support_counter_tracks_matching_slots() {
    let mut ns1 = Nightshade::new(1, 4);
    assert_eq!(ns1.best_state_counter, 1);
    let s = State {
        bare_state: BareState { endorses: 0, confidence0: 0, confidence1: 0 },
        proof0: None,
        proof1: None,
    };
    ns1.update_state(0, s);
    assert_eq!(ns1.best_state_counter, 2);
    let mut matching: usize = 0;
    for i in 0..4 {
        if ns1.states[i].bare_state == ns1.states[1].bare_state {
            matching += 1;
        }
    }
    assert_eq!(matching, ns1.best_state_counter);
}

#[test]
fn test_confidence_never_decreases() {
    let num_authorities: usize = 3;
    let mut ns = vec![];
    for i in 0..num_authorities {
        ns.push(Nightshade::new(i, num_authorities));
    }
    let mut prev: i64 = ns[0].state().bare_state.confidence0;
    for _ in 0..4 {
        let mut states = vec![];
        for i in 0..num_authorities {
            states.push(ns[i].state());
        }
        for j in 1..num_authorities {
            ns[0].update_state(j, states[j].clone());
            let now = ns[0].state().bare_state.confidence0;
            assert!(now >= prev);
            prev = now;
        }
        for i in 1..num_authorities {
            for j in 0..num_authorities {
                if i != j {
                    ns[i].update_state(j, states[j].clone());
                }
            }
        }
    }
}

#[test]
fn test_signed_state_update_appends() {
    let mut cert = SignedState::new();
    let s = State::new(4);
    cert.update(&s);
    cert.update(&s);
    assert_eq!(cert.parent.len(), 2);
    assert_eq!(cert.parent[0], BareState::new(4));
    assert_eq!(cert.parent[1], BareState::new(4));
    assert_eq!(cert.signature, 0);
}

#[test]
fn test_state_verify_and_signature_stubs() {
    let s = State::new(0);
    assert!(s.verify());
    assert_eq!(s.get_signature(), 0);
}
