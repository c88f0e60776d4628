//! Runtime construction, layer management, compositing and the tick cycle.

use keyglow::color::{Color, ColorBlendTypes, COLOR_UNIT};
use keyglow::keyboard::get_matrix;
use keyglow::process::{Process, Runtime};

/// A process that does nothing, for driving bare runtime ticks.
struct IdleProcess;

impl Process for IdleProcess {
    fn init(&mut self, _runtime: &mut Runtime) {}
    fn process(&mut self, _runtime: &mut Runtime, _delta_us: u64) {}
    fn on_timer(&mut self, _runtime: &mut Runtime, _id: u64) -> bool {
        true
    }
    fn on_tween(&mut self, _runtime: &mut Runtime, _id: u64, _value: i64) -> bool {
        true
    }
    fn on_tween_finished(&mut self, _runtime: &mut Runtime, _id: u64, _value: i64) {}
}

#[test]
fn runtime_no_analog() {
    let _: Runtime = Runtime::new(false);
}

#[test]
fn runtime_analog() {
    let runtime: Runtime = Runtime::new(true);
    assert!(!runtime.delta_watcher.unwrap().exit);
}

#[test]
fn exit_raises_watcher_flag() {
    let mut runtime = Runtime::new(true);
    runtime.exit();
    assert!(runtime.exit);
    assert!(runtime.delta_watcher.unwrap().exit);
}

fn uniform_layer(color: Color, blend: ColorBlendTypes) -> keyglow::keyboard::KeyboardMatrix {
    let mut layer = get_matrix();
    for i in 0..layer.keys.len() {
        layer.keys[i].color = color;
        layer.keys[i].color_blend_type = blend;
    }
    layer
}

const RED: Color = Color { red: COLOR_UNIT, green: 0, blue: 0 };
const BLUE: Color = Color { red: 0, green: 0, blue: COLOR_UNIT };
const WHITE: Color = Color { red: COLOR_UNIT, green: COLOR_UNIT, blue: COLOR_UNIT };

#[test]
fn compositing_is_deterministic() {
    // The same ordered layer set gives the same frame, byte for byte,
    // however often it is composited and whatever ticks ran in between.
    let mut runtime = Runtime::new(false);
    runtime.create_layer(0, uniform_layer(WHITE, ColorBlendTypes::Mult));
    runtime.create_layer(5, uniform_layer(RED, ColorBlendTypes::Add));
    let first = runtime.update_keyboard();
    let mut idle = IdleProcess;
    runtime.tick(&mut idle, 1_000);
    runtime.tick(&mut idle, 2_500);
    let second = runtime.update_keyboard();
    assert_eq!(first, second);
}

#[test]
fn compositing_is_order_sensitive() {
    // Two layers of overlapping Mask keys: whichever has the higher
    // Z-index wins, so swapping the Z-indices changes the frame.
    let mut low_red = Runtime::new(false);
    low_red.create_layer(0, uniform_layer(RED, ColorBlendTypes::Mask));
    low_red.create_layer(1, uniform_layer(BLUE, ColorBlendTypes::Mask));
    let frame_blue = low_red.update_keyboard();

    let mut low_blue = Runtime::new(false);
    low_blue.create_layer(1, uniform_layer(RED, ColorBlendTypes::Mask));
    low_blue.create_layer(0, uniform_layer(BLUE, ColorBlendTypes::Mask));
    let frame_red = low_blue.update_keyboard();

    assert_ne!(frame_blue, frame_red);
    assert_eq!(frame_blue[0].1, (0, 0, 255));
    assert_eq!(frame_red[0].1, (255, 0, 0));
}

#[test]
fn compositing_mult_white_then_add_red() {
    // Base buffer is black.  Multiplying by white keeps it black, then
    // adding red on top gives pure red.
    let mut runtime = Runtime::new(false);
    runtime.create_layer(0, uniform_layer(WHITE, ColorBlendTypes::Mult));
    runtime.create_layer(1, uniform_layer(RED, ColorBlendTypes::Add));
    let frame = runtime.update_keyboard();
    for cell in &frame {
        assert_eq!(cell.1, (255, 0, 0));
    }
}

#[test]
fn compositing_add_red_then_mult_white() {
    // The reversed order: red is accumulated first, and multiplying by
    // pure white is the identity, so the result is pure red again — the
    // blend rules make white multiplication neutral in either position.
    let mut runtime = Runtime::new(false);
    runtime.create_layer(0, uniform_layer(RED, ColorBlendTypes::Add));
    runtime.create_layer(1, uniform_layer(WHITE, ColorBlendTypes::Mult));
    let frame = runtime.update_keyboard();
    for cell in &frame {
        assert_eq!(cell.1, (255, 0, 0));
    }
}

#[test]
fn create_layer_replaces_same_z() {
    let mut runtime = Runtime::new(false);
    runtime.create_layer(3, uniform_layer(RED, ColorBlendTypes::Mask));
    runtime.create_layer(3, uniform_layer(BLUE, ColorBlendTypes::Mask));
    let frame = runtime.update_keyboard();
    assert_eq!(frame[0].1, (0, 0, 255));
}

#[test]
fn get_layer_mutates_in_place() {
    let mut runtime = Runtime::new(false);
    runtime.create_layer(7, uniform_layer(RED, ColorBlendTypes::Mask));
    {
        let layer = runtime.get_layer(7);
        for i in 0..layer.keys.len() {
            layer.keys[i].color = BLUE;
        }
    }
    let frame = runtime.update_keyboard();
    assert_eq!(frame[0].1, (0, 0, 255));
}

/// Counts timer fires, so the repeating-timer schedule can be observed.
struct TimerCounter {
    fires: u32,
    stop_after: u32,
}

impl Process for TimerCounter {
    fn init(&mut self, runtime: &mut Runtime) {
        runtime.create_timer(100_000, false);
    }
    fn process(&mut self, _runtime: &mut Runtime, _delta_us: u64) {}
    fn on_timer(&mut self, _runtime: &mut Runtime, _id: u64) -> bool {
        self.fires += 1;
        self.fires < self.stop_after
    }
    fn on_tween(&mut self, _runtime: &mut Runtime, _id: u64, _value: i64) -> bool {
        true
    }
    fn on_tween_finished(&mut self, _runtime: &mut Runtime, _id: u64, _value: i64) {}
}

#[test]
fn repeating_timer_resets_baseline_to_fire_time() {
    let mut process = TimerCounter { fires: 0, stop_after: u32::MAX };
    let mut runtime = Runtime::new(false);
    runtime.start(&mut process, 0);
    runtime.tick(&mut process, 40_000);
    assert_eq!(process.fires, 0);
    // First fire: 100 ms elapsed since the schedule time.
    runtime.tick(&mut process, 100_000);
    assert_eq!(process.fires, 1);
    // The baseline moved to the fire time (100 ms), not the schedule
    // time, so 160 ms is too early for a second fire...
    runtime.tick(&mut process, 160_000);
    assert_eq!(process.fires, 1);
    // ...and 200 ms is due.
    runtime.tick(&mut process, 200_000);
    assert_eq!(process.fires, 2);
}

#[test]
fn timer_callback_stop_removes_timer() {
    let mut process = TimerCounter { fires: 0, stop_after: 1 };
    let mut runtime = Runtime::new(false);
    runtime.start(&mut process, 0);
    runtime.tick(&mut process, 100_000);
    assert_eq!(process.fires, 1);
    runtime.tick(&mut process, 500_000);
    runtime.tick(&mut process, 900_000);
    assert_eq!(process.fires, 1);
    assert!(runtime.timers.is_empty());
}

/// Records tween updates and completions.
struct TweenWatcher {
    updates: Vec<i64>,
    completions: u32,
}

impl Process for TweenWatcher {
    fn init(&mut self, runtime: &mut Runtime) {
        runtime.create_tween(0, 1_000, 100_000);
    }
    fn process(&mut self, _runtime: &mut Runtime, _delta_us: u64) {}
    fn on_timer(&mut self, _runtime: &mut Runtime, _id: u64) -> bool {
        true
    }
    fn on_tween(&mut self, _runtime: &mut Runtime, _id: u64, value: i64) -> bool {
        self.updates.push(value);
        true
    }
    fn on_tween_finished(&mut self, _runtime: &mut Runtime, _id: u64, _value: i64) {
        self.completions += 1;
    }
}

#[test]
fn tween_completion_fires_once_and_removes() {
    let mut process = TweenWatcher { updates: Vec::new(), completions: 0 };
    let mut runtime = Runtime::new(false);
    runtime.start(&mut process, 0);
    runtime.tick(&mut process, 50_000);
    assert_eq!(process.updates, vec![500]);
    assert_eq!(process.completions, 0);
    runtime.tick(&mut process, 100_000);
    assert_eq!(process.updates, vec![500, 1_000]);
    assert_eq!(process.completions, 1);
    assert!(runtime.tweeners.is_empty());
    // The update callback kept answering true, yet the finished tweener is
    // gone: later ticks see no further updates or completions.
    runtime.tick(&mut process, 150_000);
    runtime.tick(&mut process, 200_000);
    assert_eq!(process.updates, vec![500, 1_000]);
    assert_eq!(process.completions, 1);
}

#[test]
fn tick_consumes_just_pressed_edges() {
    let mut runtime = Runtime::new(true);
    {
        let watcher = runtime.delta_watcher.as_mut().unwrap();
        // Scan code 0 belongs to the first table entry; a full press
        // crosses the default threshold.
        watcher.scan(&vec![(0u16, 255u8)], 10_000);
        assert!(watcher.keys[0].just_pressed());
    }
    let mut idle = IdleProcess;
    runtime.tick(&mut idle, 10_000);
    let watcher = runtime.delta_watcher.as_ref().unwrap();
    assert!(!watcher.keys[0].just_pressed());
    // The press depth itself is untouched by the consume.
    assert_eq!(watcher.keys[0].distance, 255);
}
