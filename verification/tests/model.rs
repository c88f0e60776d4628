//! The blend model, quantization, layout, bounds, timers and tweeners.

use keyglow::bounds::Bounds;
use keyglow::color::{blend, quantize_channel, Color, ColorBlendTypes, COLOR_UNIT};
use keyglow::key::{Key, Vec2};
use keyglow::keyboard::matrix::{compute_bounds, get_matrix};
use keyglow::timer::Timer;
use keyglow::tween::Tweener;

const WHITE: Color = Color { red: COLOR_UNIT, green: COLOR_UNIT, blue: COLOR_UNIT };
const BLACK: Color = Color { red: 0, green: 0, blue: 0 };

#[test]
fn mult_white_is_identity() {
    let c = Color { red: 123, green: 456, blue: 789 };
    assert_eq!(blend(ColorBlendTypes::Mult, c, WHITE), c);
    let d = Color { red: -50, green: 1_500, blue: 0 };
    assert_eq!(blend(ColorBlendTypes::Mult, d, WHITE), d);
}

#[test]
fn add_sub_black_is_identity() {
    let c = Color { red: 123, green: 456, blue: 789 };
    assert_eq!(blend(ColorBlendTypes::Add, c, BLACK), c);
    assert_eq!(blend(ColorBlendTypes::Sub, c, BLACK), c);
}

#[test]
fn blend_rules() {
    let a = Color { red: 100, green: 200, blue: 300 };
    let b = Color { red: 50, green: 500, blue: 1_000 };
    assert_eq!(blend(ColorBlendTypes::Add, a, b), Color { red: 150, green: 700, blue: 1_300 });
    assert_eq!(blend(ColorBlendTypes::Sub, a, b), Color { red: 50, green: -300, blue: -700 });
    // Mult scales channelwise: 100 * 500 / 1000 = 50.
    assert_eq!(
        blend(ColorBlendTypes::Mult, a, Color { red: 500, green: 500, blue: 500 }),
        Color { red: 50, green: 100, blue: 150 },
    );
    // AlphaBlend(lower, upper): a quarter of the render plus three
    // quarters of the layer.
    assert_eq!(
        blend(ColorBlendTypes::AlphaBlend(250, 750), a, b),
        Color { red: 25 + 37, green: 50 + 375, blue: 75 + 750 },
    );
    assert_eq!(blend(ColorBlendTypes::Mask, a, b), b);
    assert_eq!(blend(ColorBlendTypes::Nothing, a, b), a);
}

#[test]
fn quantization_rounds_not_truncates() {
    assert_eq!(quantize_channel(0), 0);
    assert_eq!(quantize_channel(COLOR_UNIT), 255);
    // 501/1000 of full scale is 127.755 in eighths-bits: rounds up to 128.
    assert_eq!(quantize_channel(501), 128);
    // 1/1000 is 0.255: rounds down to 0; 2/1000 is 0.51: rounds up to 1.
    assert_eq!(quantize_channel(1), 0);
    assert_eq!(quantize_channel(2), 1);
    // Out-of-range channels clamp before rounding.
    assert_eq!(quantize_channel(-300), 0);
    assert_eq!(quantize_channel(5_000), 255);
}

#[test]
fn key_colors_quantize_each_channel() {
    let mut key = get_matrix().keys[0];
    key.color = Color { red: COLOR_UNIT, green: 0, blue: 500 };
    assert_eq!(key.colors(), (255, 0, 128));
}

#[test]
fn matrix_layout() {
    let m = get_matrix();
    assert_eq!(m.keys.len(), 126);
    // Identity is (row, column), row major over 21 columns.
    assert_eq!(m.keys[0].key, (0, 0));
    assert_eq!(m.keys[1 * 21 + 13].key, (1, 13));
    assert_eq!(m.keys[5 * 21 + 20].key, (5, 20));
    // The wide keys sit at their half-unit offsets (thousandths).
    assert_eq!(m.keys[1 * 21 + 13].physical_position, Vec2 { x: 13_500, y: 1_000 });
    assert_eq!(m.keys[3 * 21 + 13].physical_position, Vec2 { x: 13_500, y: 2_500 });
    assert_eq!(m.keys[4 * 21 + 13].physical_position, Vec2 { x: 12_500, y: 4_000 });
    // An ordinary key is at its grid coordinates.
    assert_eq!(m.keys[2 * 21 + 5].physical_position, Vec2 { x: 5_000, y: 2_000 });
    // Normalization: x over 14 units minus the centring offset.
    assert_eq!(m.keys[0].pos_norm, Vec2 { x: -450, y: -500 });
    // Aspect correction scales x by 14/4.
    assert_eq!(m.keys[0].pos_norm_aspect, Vec2 { x: -1_575, y: -500 });
    // Default render state: black, additive.
    assert_eq!(m.keys[0].color, BLACK);
    assert_eq!(m.keys[0].color_blend_type, ColorBlendTypes::Add);
}

#[test]
fn layout_bounds() {
    let m = get_matrix();
    let b = compute_bounds(&m);
    // The rightmost column sits at 20000/14 - 450 = 978, the bottom row at
    // 5000/4 - 500 = 750.
    assert_eq!(b.position, Vec2 { x: -450, y: -500 });
    assert_eq!(b.size, Vec2 { x: 978 - (-450), y: 750 - (-500) });
}

#[test]
fn bounds_contains_and_intersects() {
    let b = Bounds { position: Vec2 { x: 0, y: 0 }, size: Vec2 { x: 100, y: 50 } };
    assert!(b.contains(Vec2 { x: 50, y: 25 }));
    // The border is outside: containment is strict.
    assert!(!b.contains(Vec2 { x: 0, y: 25 }));
    assert!(!b.contains(Vec2 { x: 150, y: 25 }));
    let c = Bounds { position: Vec2 { x: 90, y: 40 }, size: Vec2 { x: 100, y: 50 } };
    assert!(b.intersects(&c));
    assert!(c.intersects(&b));
    let d = Bounds { position: Vec2 { x: 100, y: 0 }, size: Vec2 { x: 10, y: 10 } };
    assert!(!b.intersects(&d));
    assert_eq!(b.center(), Vec2 { x: 50, y: 25 });
}

#[test]
fn timer_schedule() {
    let mut t = Timer::start(100, false, 0, 1_000);
    assert!(!t.is_finished(1_050));
    assert!(t.is_finished(1_100));
    assert!(t.is_finished(2_000));
    // Firing a repeating timer rebases it at the fire time.
    t.timeout(1_100, true);
    assert_eq!(t.baseline_us, 1_100);
    assert!(t.continue_running);
    assert!(!t.is_finished(1_150));
    assert!(t.is_finished(1_200));
    // A one-shot keeps its baseline when it runs out.
    let mut once = Timer::start(100, true, 1, 0);
    once.timeout(100, true);
    assert_eq!(once.baseline_us, 0);
}

#[test]
fn tweener_interpolates_and_clamps() {
    let mut t = Tweener::new(0, 1_000, 100, 0);
    assert!(!t.is_finished());
    assert_eq!(t.move_by(25), 250);
    assert_eq!(t.move_by(25), 500);
    // Advancing past the duration clamps at the end value.
    assert_eq!(t.move_by(1_000), 1_000);
    assert!(t.is_finished());
    assert_eq!(t.move_by(10), 1_000);

    // A descending tweener interpolates downward.
    let mut down = Tweener::new(500, -500, 100, 1);
    assert_eq!(down.move_by(50), 0);
    assert_eq!(down.move_by(25), -250);
}
