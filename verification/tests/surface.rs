use pong::buffer::{Buffer, BACKGROUND, WHITE};
use pong::game::render;
use pong::misc::{rectangles_overlapping, Rectangle};
use pong::physics::{GameMode, MatchState, PhysicsEngine};

fn at(b: &Buffer, px: usize, py: usize) -> u32 {
    b.pixels[py * b.width + px]
}

#[test]
fn touching_rectangles_overlap() {
    let a = Rectangle { x: 0, y: 0, width: 5, height: 5 };
    let b = Rectangle { x: 5, y: 0, width: 3, height: 3 };
    assert!(rectangles_overlapping(a, b));
    assert!(rectangles_overlapping(b, a));
}

#[test]
fn horizontally_separated_rectangles_do_not_overlap() {
    let a = Rectangle { x: 0, y: 0, width: 5, height: 5 };
    let b = Rectangle { x: 6, y: 0, width: 3, height: 3 };
    assert!(!rectangles_overlapping(a, b));
    assert!(!rectangles_overlapping(b, a));
}

#[test]
fn vertically_separated_rectangles_do_not_overlap() {
    let a = Rectangle { x: 0, y: 0, width: 5, height: 5 };
    let b = Rectangle { x: 0, y: 6, width: 3, height: 3 };
    assert!(!rectangles_overlapping(a, b));
    assert!(!rectangles_overlapping(b, a));
}

#[test]
fn new_buffer_is_background() {
    let b = Buffer::new(10, 8);
    assert_eq!(b.width, 10);
    assert_eq!(b.height, 8);
    assert_eq!(b.pixels.len(), 80);
    for py in 0..8 {
        for px in 0..10 {
            assert_eq!(at(&b, px, py), BACKGROUND);
        }
    }
}

#[test]
fn filled_rectangle_covers_exactly_its_box() {
    let mut b = Buffer::new(10, 8);
    b.rectangle(2, 3, 4, 2, WHITE, true);
    for py in 0..8 {
        for px in 0..10 {
            let inside = 2 <= px && px < 6 && 3 <= py && py < 5;
            let want = if inside { WHITE } else { BACKGROUND };
            assert_eq!(at(&b, px, py), want);
        }
    }
}

#[test]
fn outlined_rectangle_draws_only_the_border() {
    let mut b = Buffer::new(10, 8);
    b.rectangle(1, 1, 5, 4, WHITE, false);
    assert_eq!(at(&b, 1, 1), WHITE);
    assert_eq!(at(&b, 5, 1), WHITE);
    assert_eq!(at(&b, 1, 4), WHITE);
    assert_eq!(at(&b, 5, 4), WHITE);
    assert_eq!(at(&b, 3, 1), WHITE);
    assert_eq!(at(&b, 1, 3), WHITE);
    assert_eq!(at(&b, 3, 3), BACKGROUND);
    assert_eq!(at(&b, 2, 2), BACKGROUND);
    assert_eq!(at(&b, 7, 2), BACKGROUND);
}

#[test]
fn rectangle_clips_at_the_surface_edge() {
    let mut b = Buffer::new(10, 8);
    b.rectangle(8, 6, 5, 5, WHITE, true);
    for py in 0..8 {
        for px in 0..10 {
            let inside = px >= 8 && py >= 6;
            let want = if inside { WHITE } else { BACKGROUND };
            assert_eq!(at(&b, px, py), want);
        }
    }
}

#[test]
fn rectangle_fully_outside_draws_nothing() {
    let mut b = Buffer::new(10, 8);
    b.rectangle(20, 20, 3, 3, WHITE, true);
    for py in 0..8 {
        for px in 0..10 {
            assert_eq!(at(&b, px, py), BACKGROUND);
        }
    }
}

#[test]
fn clear_resets_every_pixel() {
    let mut b = Buffer::new(10, 8);
    b.rectangle(0, 0, 10, 8, WHITE, true);
    assert_eq!(at(&b, 5, 5), WHITE);
    b.clear();
    for py in 0..8 {
        for px in 0..10 {
            assert_eq!(at(&b, px, py), BACKGROUND);
        }
    }
}

#[test]
fn rendered_frame_shows_ball_and_paddles() {
    let e = PhysicsEngine::new(800, 600, GameMode::TwoPaddle, Some(6));
    assert_eq!(e.state, MatchState::AwaitingServe);
    let mut b = Buffer::new(800, 600);
    render(&e, &mut b);
    assert_eq!(at(&b, 400, 300), WHITE);
    assert_eq!(at(&b, 42, 300), WHITE);
    assert_eq!(at(&b, 756, 300), WHITE);
    assert_eq!(at(&b, 0, 0), BACKGROUND);
    assert_eq!(at(&b, 200, 300), BACKGROUND);
    assert_eq!(at(&b, 400, 100), BACKGROUND);
}
