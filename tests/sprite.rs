use kennel_club::creature;
use kennel_club::loader::Loader;
use kennel_club::sheet::{Sheet, SpriteSheet};
use kennel_club::sprite::{Animation, SpriteState, State};

#[test]
fn sectors_run_counterclockwise_from_southwest() {
    let expected = [
        State::Southwest,
        State::South,
        State::Southeast,
        State::East,
        State::Northeast,
        State::North,
        State::Northwest,
        State::West,
    ];
    for (sector, state) in expected.iter().enumerate() {
        assert_eq!(State::from_sector(sector), *state);
    }
    assert_eq!(State::from_sector(100), State::West);
}

#[test]
fn no_motion_shows_sleep_only_when_asleep() {
    assert_eq!(State::from_motion(None, &creature::State::Sleep), State::Sleep);
    assert_eq!(State::from_motion(None, &creature::State::Idle), State::Idle);
    assert_eq!(State::from_motion(None, &creature::State::Follow), State::Idle);
    assert_eq!(State::from_motion(Some(3), &creature::State::Sleep), State::East);
    assert_eq!(State::from_motion(Some(5), &creature::State::Flee), State::North);
}

#[test]
fn frame_counter_counts_unchanged_ticks() {
    let a = Animation::new();
    assert_eq!(a, Animation { state: State::Idle, frame: 0 });
    let b = a.advance(State::Idle);
    assert_eq!(b, Animation { state: State::Idle, frame: 1 });
    let c = b.advance(State::East);
    assert_eq!(c, Animation { state: State::East, frame: 0 });
    let d = c.after_motion(Some(3), &creature::State::Follow);
    assert_eq!(d, Animation { state: State::East, frame: 1 });
    let e = d.after_motion(None, &creature::State::Sleep);
    assert_eq!(e, Animation { state: State::Sleep, frame: 0 });
}

#[test]
fn idle_creature_shows_idle_for_a_hundred_ticks() {
    // the animation of the first tick, then 99 more ticks without motion
    let mut a = Animation::new();
    for _ in 1..100 {
        a = a.after_motion(None, &creature::State::Idle);
        assert_eq!(a.state, State::Idle);
    }
    assert_eq!(a.frame, 99);
}

#[test]
fn sheet_frames_cycle() {
    let mut sheet: Sheet<u32> = Sheet::new();
    sheet.push(&State::North, 10);
    sheet.push(&State::North, 11);
    sheet.push(&State::North, 12);
    sheet.push(&State::Idle, 1);
    assert_eq!(sheet.frame_count(&State::North), 3);
    assert_eq!(sheet.frame_count(&State::South), 0);
    assert_eq!(*sheet.get_sprite(&State::North, 0), 10);
    assert_eq!(*sheet.get_sprite(&State::North, 4), 11);
    assert_eq!(*sheet.get_sprite(&State::North, 8), 12);
    assert_eq!(*sheet.get_sprite(&State::Idle, 99), 1);
}

#[test]
fn sprite_sheet_returns_a_copy_of_the_frame() {
    let mut sheet = SpriteSheet::default();
    let state: SpriteState = State::Sleep;
    assert_eq!(sheet.frame_count(&state), 0);
    sheet.push(&state, vec![1, 2, 3]);
    sheet.push(&state, vec![4]);
    assert_eq!(sheet.get_sprite(&state, 0), vec![1, 2, 3]);
    assert_eq!(sheet.get_sprite(&state, 3), vec![4]);
}

#[test]
fn loader_lists_paths_in_load_order() {
    let mut loader = Loader::new();
    assert!(loader.entries().is_empty());
    loader.push(&State::West, "w0.png".to_string());
    loader.push(&State::Idle, "i0.png".to_string());
    loader.push(&State::Idle, "i1.png".to_string());
    loader.push(&State::East, "e0.png".to_string());
    assert_eq!(
        loader.entries(),
        vec![
            (State::Idle, "i0.png".to_string()),
            (State::Idle, "i1.png".to_string()),
            (State::East, "e0.png".to_string()),
            (State::West, "w0.png".to_string()),
        ]
    );
}
