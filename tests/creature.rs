use kennel_club::creature::{next_states, CreatureMetadata, CreatureState, State};
use rand::rngs::SmallRng;
use rand::SeedableRng;

#[test]
fn transition_table_rows() {
    assert_eq!(State::Idle.weights(), [75, 15, 5, 5]);
    assert_eq!(State::Sleep.weights(), [10, 90, 0, 0]);
    assert_eq!(State::Flee.weights(), [10, 0, 75, 15]);
    assert_eq!(State::Follow.weights(), [10, 0, 15, 75]);
    assert_eq!(CreatureState::Flee(7).weights(), [10, 0, 75, 15]);
}

#[test]
fn columns_are_idle_sleep_flee_follow() {
    assert_eq!(State::from_index(0), State::Idle);
    assert_eq!(State::from_index(1), State::Sleep);
    assert_eq!(State::from_index(2), State::Flee);
    assert_eq!(State::from_index(3), State::Follow);
}

#[test]
fn default_state_is_idle() {
    assert_eq!(State::default(), State::Idle);
}

#[test]
fn only_follow_and_flee_move() {
    assert!(!State::Idle.moves());
    assert!(!State::Sleep.moves());
    assert!(State::Follow.moves());
    assert!(State::Flee.moves());
}

#[test]
fn sleeping_creature_never_starts_moving() {
    let mut rng = SmallRng::seed_from_u64(1);
    let mut seen_idle = false;
    for _ in 0..2000 {
        let next = State::Sleep.next(&mut rng);
        assert!(next == State::Sleep || next == State::Idle);
        seen_idle |= next == State::Idle;
    }
    assert!(seen_idle);
}

#[test]
fn fleeing_creature_never_falls_asleep() {
    let mut rng = SmallRng::seed_from_u64(2);
    for _ in 0..2000 {
        assert_ne!(State::Flee.next(&mut rng), State::Sleep);
    }
}

#[test]
fn draws_are_reproducible_from_a_seed() {
    let states = vec![State::Idle, State::Sleep, State::Follow, State::Flee];
    let run = || {
        let mut rng = SmallRng::seed_from_u64(42);
        (0..50)
            .map(|_| next_states(&states, &mut rng))
            .collect::<Vec<_>>()
    };
    assert_eq!(run(), run());
}

#[test]
fn next_states_keeps_the_order_of_creatures() {
    let states = vec![State::Sleep, State::Sleep, State::Flee];
    let mut rng = SmallRng::seed_from_u64(3);
    for _ in 0..200 {
        let next = next_states(&states, &mut rng);
        assert_eq!(next.len(), 3);
        assert!(matches!(next[0], State::Sleep | State::Idle));
        assert!(matches!(next[1], State::Sleep | State::Idle));
        assert_ne!(next[2], State::Sleep);
    }
}

#[test]
fn creature_state_counts_ticks_in_a_row() {
    assert_eq!(CreatureState::Idle(3).with_index(0), CreatureState::Idle(4));
    assert_eq!(CreatureState::Flee(3).with_index(2), CreatureState::Flee(4));
    assert_eq!(CreatureState::Follow(9).with_index(3), CreatureState::Follow(10));
    assert_eq!(CreatureState::Sleep(255).with_index(1), CreatureState::Sleep(255));
    assert_eq!(CreatureState::Idle(3).with_index(1), CreatureState::Sleep(0));
    assert_eq!(CreatureState::Follow(3).with_index(0), CreatureState::Idle(0));
}

#[test]
fn creature_state_next_follows_the_table() {
    let mut rng = SmallRng::seed_from_u64(5);
    for _ in 0..500 {
        let next = CreatureState::Sleep(4).next(&mut rng);
        assert!(matches!(next, CreatureState::Sleep(5) | CreatureState::Idle(0)));
    }
}

#[test]
fn random_creature_state_is_fresh_and_varied() {
    let mut kinds = std::collections::HashSet::new();
    for _ in 0..500 {
        let s = CreatureState::random();
        match s {
            CreatureState::Idle(d) | CreatureState::Sleep(d) | CreatureState::Flee(d) | CreatureState::Follow(d) => {
                assert_eq!(d, 0)
            }
        }
        kinds.insert(format!("{:?}", s));
    }
    assert_eq!(kinds.len(), 4);
}

#[test]
fn creature_metadata_holds_its_fields() {
    let m = CreatureMetadata {
        display_name: "Rex".to_string(),
        url: "https://example.org/rex".to_string(),
    };
    assert_eq!(m.clone(), m);
    assert_eq!(m.display_name, "Rex");
}
