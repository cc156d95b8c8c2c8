use game_of_life::controller::{Controller, FrameInput};
use game_of_life::grid::Grid;

fn idle() -> FrameInput {
    FrameInput {
        toggle_at: None,
        step_requested: false,
        autorun_toggled: false,
        delay_increase: false,
        delay_decrease: false,
        reset_requested: false,
        elapsed_frames: 1,
    }
}

fn blinker() -> Grid {
    Grid::from_live_cells(5, 5, &vec![(2, 1), (2, 2), (2, 3)])
}

#[test]
fn new_controller_starts_at_rest() {
    let c = Controller::new(blinker(), 7);
    assert_eq!(c.generation(), 0);
    assert!(!c.auto_run());
    assert_eq!(c.step_delay(), 7);
    assert_eq!(c.frame_accumulator(), 0);
    assert!(c.grid().get(2, 2));
}

#[test]
fn idle_frame_without_autorun_does_nothing() {
    let mut c = Controller::new(blinker(), 0);
    assert!(!c.frame(&idle()));
    assert_eq!(c.generation(), 0);
    assert!(c.grid().get(2, 1));
    assert!(!c.grid().get(1, 2));
}

#[test]
fn manual_step_commits_one_generation() {
    let mut c = Controller::new(blinker(), 5);
    let input = FrameInput { step_requested: true, ..idle() };
    assert!(c.frame(&input));
    assert_eq!(c.generation(), 1);
    assert!(c.grid().get(1, 2));
    assert!(c.grid().get(3, 2));
    assert!(!c.grid().get(2, 1));
    assert!(!c.frame(&idle()));
    assert_eq!(c.generation(), 1);
}

#[test]
fn toggling_a_cell_never_changes_generation() {
    let mut c = Controller::new(Grid::new(4, 4), 0);
    let input = FrameInput { toggle_at: Some((3, 0)), ..idle() };
    assert!(!c.frame(&input));
    assert_eq!(c.generation(), 0);
    assert!(c.grid().get(3, 0));
    assert!(!c.frame(&input));
    assert!(!c.grid().get(3, 0));
    assert_eq!(c.generation(), 0);
}

#[test]
fn autorun_with_zero_delay_steps_every_frame() {
    let mut c = Controller::new(blinker(), 0);
    assert!(c.frame(&FrameInput { autorun_toggled: true, ..idle() }));
    assert_eq!(c.generation(), 1);
    for k in 2..=10u64 {
        assert!(c.frame(&idle()));
        assert_eq!(c.generation(), k);
        assert_eq!(c.frame_accumulator(), 0);
    }
    assert!(c.grid().get(2, 1));
    assert!(!c.grid().get(1, 2));
}

#[test]
fn autorun_with_delay_two_steps_every_third_frame() {
    let mut c = Controller::new(blinker(), 2);
    let mut stepped = Vec::new();
    stepped.push(c.frame(&FrameInput { autorun_toggled: true, ..idle() }));
    for _ in 0..8 {
        stepped.push(c.frame(&idle()));
    }
    assert_eq!(stepped, vec![false, false, true, false, false, true, false, false, true]);
    assert_eq!(c.generation(), 3);
}

#[test]
fn manual_step_resets_the_accumulator() {
    let mut c = Controller::new(blinker(), 3);
    c.frame(&FrameInput { autorun_toggled: true, ..idle() });
    c.frame(&idle());
    assert_eq!(c.frame_accumulator(), 2);
    assert!(c.frame(&FrameInput { step_requested: true, ..idle() }));
    assert_eq!(c.frame_accumulator(), 0);
    assert_eq!(c.generation(), 1);
}

#[test]
fn several_elapsed_frames_count_together() {
    let mut c = Controller::new(blinker(), 4);
    assert!(!c.frame(&FrameInput { autorun_toggled: true, elapsed_frames: 3, ..idle() }));
    assert_eq!(c.frame_accumulator(), 3);
    assert!(c.frame(&FrameInput { elapsed_frames: 2, ..idle() }));
    assert_eq!(c.generation(), 1);
}

#[test]
fn delay_decrease_stops_at_zero() {
    let mut c = Controller::new(blinker(), 1);
    let down = FrameInput { delay_decrease: true, ..idle() };
    c.frame(&down);
    assert_eq!(c.step_delay(), 0);
    c.frame(&down);
    assert_eq!(c.step_delay(), 0);
    c.frame(&FrameInput { delay_increase: true, ..idle() });
    c.frame(&FrameInput { delay_increase: true, ..idle() });
    assert_eq!(c.step_delay(), 2);
}

#[test]
fn delay_increase_stops_at_the_largest_value() {
    let mut c = Controller::new(blinker(), u64::MAX);
    c.frame(&FrameInput { delay_increase: true, ..idle() });
    assert_eq!(c.step_delay(), u64::MAX);
}

#[test]
fn reset_clears_grid_and_keeps_counters() {
    let mut c = Controller::new(blinker(), 6);
    c.frame(&FrameInput { step_requested: true, ..idle() });
    assert_eq!(c.generation(), 1);
    assert!(!c.frame(&FrameInput { reset_requested: true, toggle_at: Some((0, 0)), ..idle() }));
    assert_eq!(c.generation(), 1);
    assert_eq!(c.step_delay(), 6);
    assert_eq!(c.grid().width(), 5);
    for x in 0..5 {
        for y in 0..5 {
            assert!(!c.grid().get(x, y));
        }
    }
}

#[test]
fn reset_during_a_step_leaves_the_grid_dead() {
    let mut c = Controller::new(blinker(), 0);
    assert!(c.frame(&FrameInput { reset_requested: true, step_requested: true, ..idle() }));
    assert_eq!(c.generation(), 1);
    for x in 0..5 {
        for y in 0..5 {
            assert!(!c.grid().get(x, y));
        }
    }
}
