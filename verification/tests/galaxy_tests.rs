use desktop_beauty::fixed::{FP, TURN};
use desktop_beauty::galaxy::{
    draw_galaxy_step_inc, Galaxy, GalaxyAnimator, INIT_DIAMETER, MAX_DIAMETER, STEP,
};
use desktop_beauty::primitives::{close_draw_frame, open_draw_frame, DrawCmd, PenStyle, Surface};
use desktop_beauty::DrawError;

const COLOR: u32 = 0x336699;

fn fresh_galaxy() -> Galaxy {
    Galaxy::new(100 * FP, 100 * FP, 1920, 1080, COLOR).unwrap()
}

#[test]
fn new_bakes_in_the_starting_state() {
    let g = fresh_galaxy();
    assert_eq!(g.x, 100 * FP);
    assert_eq!(g.y, 100 * FP);
    assert_eq!(g.color, COLOR);
    assert_eq!(g.diameter, INIT_DIAMETER);
    assert_eq!(g.max_diameter, MAX_DIAMETER);
    assert_eq!(g.curvature, 10);
    assert_eq!(g.theta, 0);
    assert_eq!(g.theta_step, TURN);
    assert!(!g.is_max_radius);
    // mouse / (dim * 999) / 999, carried in FINE sub-units.
    assert_eq!(g.hptr_x, 100 * FP as i64 * 1_000_000_000 / (1920 * 998_001));
    assert_eq!(g.hptr_y, 100 * FP as i64 * 1_000_000_000 / (1080 * 998_001));
}

#[test]
fn new_rejects_pointer_on_screen_origin() {
    // A pointer on the top edge degenerates the vertical anchor ratio.
    assert_eq!(
        Galaxy::new(100 * FP, 0, 1920, 1080, COLOR),
        Err(DrawError::InvalidParameter)
    );
}

#[test]
fn one_step_updates_prior_origin_and_draws_nine_segments() {
    let mut surface = Surface::new(1920, 1080);
    let mut data = open_draw_frame(&surface, 1920, 1080);
    let mut g = fresh_galaxy();
    let mut animator = GalaxyAnimator::new();
    let default_pen = data.pen;
    draw_galaxy_step_inc(&mut data, &mut g, &mut animator).unwrap();
    assert_eq!(animator.prior_x, 100 * FP);
    assert_eq!(animator.prior_y, 100 * FP);
    // curvature 10: the first sub-stroke has no predecessor, the other
    // nine each draw one segment.
    assert_eq!(data.cmds.len(), 9);
    for cmd in &data.cmds {
        match cmd {
            DrawCmd::Line { pen, .. } => {
                assert_eq!(*pen, PenStyle { color: COLOR, width: 2 });
            }
            other => panic!("unexpected primitive: {:?}", other),
        }
    }
    // The pen bound for the tick was restored on the way out.
    assert_eq!(data.pen, default_pen);
    // Committing the session makes exactly this frame visible.
    close_draw_frame(&mut surface, 1920, 1080, data);
    assert_eq!(surface.frame.len(), 9);
}

#[test]
fn diameter_grows_one_step_per_substroke_then_latches() {
    let surface = Surface::new(1920, 1080);
    let mut g = fresh_galaxy();
    let mut animator = GalaxyAnimator::new();
    // (max - init) / STEP = 4410 growing sub-strokes: 441 ticks of 10.
    for tick in 0..441 {
        let mut data = open_draw_frame(&surface, 1920, 1080);
        let before = g.diameter;
        draw_galaxy_step_inc(&mut data, &mut g, &mut animator).unwrap();
        assert_eq!(g.diameter, before + 10 * STEP, "tick {}", tick);
        assert!(!g.is_max_radius, "tick {}", tick);
    }
    assert_eq!(g.diameter, MAX_DIAMETER);
    // The next tick pushes past the bound and latches into shrinking.
    let mut data = open_draw_frame(&surface, 1920, 1080);
    draw_galaxy_step_inc(&mut data, &mut g, &mut animator).unwrap();
    assert!(g.is_max_radius);
    assert_eq!(g.diameter, MAX_DIAMETER - 8 * STEP);
}

#[test]
fn diameter_never_goes_below_zero_while_shrinking() {
    let surface = Surface::new(1920, 1080);
    let mut g = fresh_galaxy();
    let mut animator = GalaxyAnimator::new();
    let mut saw_shrinking = false;
    let mut saw_regrowth = false;
    for _ in 0..10_000 {
        let mut data = open_draw_frame(&surface, 1920, 1080);
        draw_galaxy_step_inc(&mut data, &mut g, &mut animator).unwrap();
        if g.is_max_radius {
            saw_shrinking = true;
            assert!(g.diameter >= 0);
        } else if saw_shrinking {
            saw_regrowth = true;
        }
        assert!(g.diameter >= -STEP);
        assert!(g.diameter <= MAX_DIAMETER + STEP);
    }
    // The run was long enough to cover a full grow-shrink-grow cycle.
    assert!(saw_shrinking);
    assert!(saw_regrowth);
}

#[test]
fn zero_curvature_is_rejected_unchanged() {
    let surface = Surface::new(640, 480);
    let mut data = open_draw_frame(&surface, 640, 480);
    let mut g = Galaxy::empty();
    let mut animator = GalaxyAnimator::new();
    let before = g;
    assert_eq!(
        draw_galaxy_step_inc(&mut data, &mut g, &mut animator),
        Err(DrawError::InvalidParameter)
    );
    assert_eq!(g, before);
    assert_eq!(animator, GalaxyAnimator::new());
    assert_eq!(data.cmds.len(), 0);
}

#[test]
fn zero_anchor_ratio_is_rejected() {
    let surface = Surface::new(640, 480);
    let mut data = open_draw_frame(&surface, 640, 480);
    let mut g = fresh_galaxy();
    g.hptr_y = 0;
    let mut animator = GalaxyAnimator::new();
    assert_eq!(
        draw_galaxy_step_inc(&mut data, &mut g, &mut animator),
        Err(DrawError::InvalidParameter)
    );
    assert_eq!(data.cmds.len(), 0);
}

#[test]
fn empty_galaxy_is_all_zeroes() {
    let g = Galaxy::empty();
    assert_eq!(g.x, 0);
    assert_eq!(g.y, 0);
    assert_eq!(g.color, 0);
    assert_eq!(g.diameter, 0);
    assert_eq!(g.max_diameter, 0);
    assert_eq!(g.curvature, 0);
    assert_eq!(g.theta, 0);
    assert_eq!(g.theta_step, 0);
    assert!(!g.is_max_radius);
    assert_eq!(g.hptr_x, 0);
    assert_eq!(g.hptr_y, 0);
}

#[test]
fn theta_tracks_diameter_in_lockstep() {
    let surface = Surface::new(1920, 1080);
    let mut g = fresh_galaxy();
    let mut animator = GalaxyAnimator::new();
    for _ in 0..1000 {
        let mut data = open_draw_frame(&surface, 1920, 1080);
        draw_galaxy_step_inc(&mut data, &mut g, &mut animator).unwrap();
        // The angle-diameter coupling of the state machine.
        assert_eq!(
            g.theta as i128 * STEP as i128,
            g.theta_step as i128 * (g.diameter - INIT_DIAMETER) as i128
        );
    }
}
