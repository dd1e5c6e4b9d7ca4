use kennel_club::collision::{Arena, ArenaCollision, TICK_END};

fn key(t: f64) -> u64 {
    t.to_bits()
}

#[test]
fn tick_end_is_the_key_of_one() {
    assert_eq!(TICK_END, key(1.0));
    assert!(key(0.25) < key(0.5));
    assert!(key(0.999) < TICK_END);
}

#[test]
fn lone_step_without_collision_runs_in_full() {
    let mut arena = Arena::new();
    arena.add(None, &vec![]);
    assert_eq!(arena.len(), 1);
    assert_eq!(arena.into_vec(), vec![None]);
}

#[test]
fn wall_collision_stops_the_step() {
    let mut arena = Arena::new();
    arena.add(Some(key(0.05)), &vec![]);
    assert_eq!(arena.into_vec(), vec![Some(key(0.05))]);
}

#[test]
fn head_on_collision_stops_both_steps_at_contact() {
    let mut arena = Arena::new();
    arena.add(None, &vec![]);
    arena.add(None, &vec![Some(key(0.4))]);
    assert_eq!(arena.into_vec(), vec![Some(key(0.4)), Some(key(0.4))]);
}

#[test]
fn stopped_step_is_not_reopened() {
    // step 0 hits the wall first; its later collision with step 1 is skipped,
    // so step 1 runs in full
    let mut arena = Arena::new();
    arena.add(Some(key(0.2)), &vec![]);
    arena.add(None, &vec![Some(key(0.5))]);
    assert_eq!(arena.into_vec(), vec![Some(key(0.2)), None]);
}

#[test]
fn earliest_collision_wins_whatever_the_insertion_order() {
    // steps 0 and 2 meet at 0.3, before step 0 would meet step 1 at 0.6
    let mut arena = Arena::new();
    arena.add(None, &vec![]);
    arena.add(None, &vec![Some(key(0.6))]);
    arena.add(None, &vec![Some(key(0.3)), None]);
    assert_eq!(arena.into_vec(), vec![Some(key(0.3)), None, Some(key(0.3))]);
}

#[test]
fn fast_step_between_two_others() {
    // a stationary step sits between two that run toward each other: each
    // of them meets it before they could meet each other
    let mut arena = Arena::new();
    arena.add(None, &vec![]);
    arena.add(None, &vec![Some(key(0.5))]);
    arena.add(None, &vec![Some(key(0.25)), Some(key(0.25))]);
    assert_eq!(
        arena.into_vec(),
        vec![Some(key(0.25)), None, Some(key(0.25))]
    );
}

#[test]
fn equal_times_resolve_in_the_order_found() {
    let mut arena = Arena::new();
    arena.add(None, &vec![]);
    arena.add(None, &vec![Some(key(0.5))]);
    arena.add(Some(key(0.5)), &vec![None, Some(key(0.5))]);
    // the pair (0, 1) was found first; the wall of step 2 comes next and
    // commits; the pair (1, 2) shares committed steps and is skipped
    assert_eq!(
        arena.into_vec(),
        vec![Some(key(0.5)), Some(key(0.5)), Some(key(0.5))]
    );
}

#[test]
fn collisions_at_the_end_of_the_tick_do_not_happen() {
    let mut arena = Arena::new();
    arena.add(Some(TICK_END), &vec![]);
    arena.add(None, &vec![Some(key(1.5))]);
    assert_eq!(arena.into_vec(), vec![None, None]);
}

#[test]
fn collision_constructors_and_time() {
    let b = ArenaCollision::new_bound_collision(3, key(0.5));
    let s = ArenaCollision::new_steps_collision((1, 2), key(0.75));
    assert_eq!(b, ArenaCollision::Bound(3, key(0.5)));
    assert_eq!(s, ArenaCollision::Steps(1, 2, key(0.75)));
    assert_eq!(b.time(), key(0.5));
    assert_eq!(s.time(), key(0.75));
}

#[test]
fn same_collisions_give_the_same_result() {
    let build = || {
        let mut arena = Arena::new();
        arena.add(Some(key(0.7)), &vec![]);
        arena.add(None, &vec![Some(key(0.1))]);
        arena.add(Some(key(0.05)), &vec![Some(key(0.2)), Some(key(0.3))]);
        arena.into_vec()
    };
    let first = build();
    assert_eq!(first, build());
    assert_eq!(first, vec![Some(key(0.1)), Some(key(0.1)), Some(key(0.05))]);
}
