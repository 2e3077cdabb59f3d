use lib::devices::{
    rgb332_to_rgb888, Button, InputDevice, TimerDevice, VideoBackend, VideoDevice, HEIGHT,
    INPUT_POINTER_X, INPUT_POINTER_Y, INPUT_PRESSED, INPUT_STATE, TIMER_COUNT_HI, TIMER_COUNT_LO,
    TIMER_CTRL, TIMER_CTRL_ENABLE, TIMER_CTRL_PERIODIC, TIMER_CTRL_RESTART, TIMER_RELOAD_HI,
    TIMER_RELOAD_LO, VIDEO_CTRL, VIDEO_CTRL_ENABLE, VIDEO_FORMAT, VIDEO_HEIGHT, VIDEO_PRESENT,
    VIDEO_WIDTH, VRAM_SIZE, WIDTH,
};

#[test]
fn input_latches_rising_edges_and_guest_clears_them() {
    let mut input = InputDevice::new();
    input.press(Button::A);
    input.press(Button::Right);

    assert_eq!(input.read(INPUT_STATE), Button::A.bit() | Button::Right.bit());
    assert_eq!(input.read(INPUT_PRESSED), Button::A.bit() | Button::Right.bit());

    input.write(INPUT_PRESSED, Button::A.bit());
    assert_eq!(input.read(INPUT_PRESSED), Button::Right.bit());

    input.set_buttons(Button::Right.bit());
    input.set_buttons(Button::Right.bit() | Button::A.bit());
    assert_eq!(input.read(INPUT_PRESSED), Button::Right.bit() | Button::A.bit());
}

#[test]
fn input_pointer_registers_preserve_signed_bytes() {
    let mut input = InputDevice::new();
    input.set_pointer(-12, 101);

    assert_eq!(input.pointer(), (-12, 101));
    assert_eq!(input.read(INPUT_POINTER_X) as i8, -12);
    assert_eq!(input.read(INPUT_POINTER_Y) as i8, 101);
}

#[test]
fn timer_registers_are_little_endian_and_restart_is_a_strobe() {
    let mut timer = TimerDevice::new();
    timer.write(TIMER_RELOAD_LO, 0x34);
    timer.write(TIMER_RELOAD_HI, 0x12);
    timer.write(TIMER_CTRL, TIMER_CTRL_ENABLE | TIMER_CTRL_PERIODIC | TIMER_CTRL_RESTART);

    assert_eq!(timer.reload(), 0x1234);
    assert_eq!(timer.count(), 0x1234);
    assert_eq!(timer.read(TIMER_COUNT_LO), 0x34);
    assert_eq!(timer.read(TIMER_COUNT_HI), 0x12);
    assert_eq!(timer.read(TIMER_CTRL), TIMER_CTRL_ENABLE | TIMER_CTRL_PERIODIC);
}

#[test]
fn timer_irqs_only_on_zero_transitions() {
    let mut timer = TimerDevice::new();
    timer.set_reload(5);
    timer.write(TIMER_CTRL, TIMER_CTRL_ENABLE | TIMER_CTRL_PERIODIC | TIMER_CTRL_RESTART);

    assert!(!timer.tick(4));
    assert_eq!(timer.count(), 1);
    assert!(timer.tick(1));
    assert_eq!(timer.count(), 5);
    assert!(timer.tick(7));
    assert_eq!(timer.count(), 3);

    timer.write(TIMER_CTRL, TIMER_CTRL_ENABLE);
    timer.set_count(2);
    assert!(timer.tick(2));
    assert_eq!(timer.count(), 0);
    assert!(!timer.tick(1));
}

#[derive(Default)]
struct RecordingBackend {
    width: usize,
    height: usize,
    frames: Vec<Vec<u8>>,
}

impl VideoBackend for RecordingBackend {
    fn present(&mut self, width: usize, height: usize, pixels: &[u8]) {
        self.width = width;
        self.height = height;
        self.frames.push(pixels.to_vec());
    }
}

#[test]
fn video_tracks_dirty_pixels_and_presents_pending_frames() {
    let mut video = VideoDevice::new();
    let mut backend = RecordingBackend::default();

    assert!(video.set_pixel(3, 2, 0xe3));
    assert_eq!(video.pixel(3, 2), Some(0xe3));
    assert!(video.dirty());
    assert!(!video.set_pixel(WIDTH, 0, 1));

    video.write(VIDEO_CTRL, VIDEO_CTRL_ENABLE);
    video.write(VIDEO_PRESENT, 0);
    assert_eq!(video.frame_sequence(), 1);
    assert!(video.frame_pending());
    assert!(video.render_if_pending(&mut backend));

    assert!(!video.frame_pending());
    assert!(!video.dirty());
    assert_eq!((backend.width, backend.height), (WIDTH, HEIGHT));
    assert_eq!(backend.frames.len(), 1);
    assert_eq!(backend.frames[0][2 * WIDTH + 3], 0xe3);
    assert!(!video.render_if_pending(&mut backend));
}

#[test]
fn disabled_video_consumes_present_without_calling_backend() {
    let mut video = VideoDevice::new();
    let mut backend = RecordingBackend::default();
    video.write_vram(0, 0xff);
    video.request_present();

    assert!(!video.render_if_pending(&mut backend));
    assert!(!video.frame_pending());
    assert!(video.dirty());
    assert!(backend.frames.is_empty());
}

#[test]
fn rgb332_conversion_uses_the_full_channel_ranges() {
    assert_eq!(rgb332_to_rgb888(0x00), [0, 0, 0]);
    assert_eq!(rgb332_to_rgb888(0xff), [255, 255, 255]);
    assert_eq!(rgb332_to_rgb888(0xe0), [255, 0, 0]);
}

#[test]
fn rgb332_conversion_scales_each_channel() {
    // red 3/7, green 5/7, blue 2/3
    assert_eq!(rgb332_to_rgb888(0b011_101_10), [109, 182, 170]);
    assert_eq!(rgb332_to_rgb888(0x1c), [0, 255, 0]);
    assert_eq!(rgb332_to_rgb888(0x03), [0, 0, 255]);
}

#[test]
fn releasing_a_button_does_not_latch_and_unknown_registers_read_ff() {
    let mut input = InputDevice::new();
    input.press(Button::Up);
    input.write(INPUT_PRESSED, 0xff);
    input.release(Button::Up);
    assert_eq!(input.state(), 0);
    assert_eq!(input.pressed(), 0);
    assert!(!input.is_down(Button::Up));
    input.write(INPUT_STATE, 0x55);
    assert_eq!(input.state(), 0);
    assert_eq!(input.read(4), 0xff);
    input.press(Button::Select);
    assert!(input.is_down(Button::Select));
    input.reset();
    assert_eq!(input, InputDevice::new());
}

#[test]
fn timer_count_registers_and_disabled_timer() {
    let mut timer = TimerDevice::new();
    timer.write(TIMER_COUNT_LO, 0x10);
    timer.write(TIMER_COUNT_HI, 0x02);
    assert_eq!(timer.count(), 0x0210);
    assert!(!timer.enabled());
    assert!(!timer.tick(1000));
    assert_eq!(timer.count(), 0x0210);
    assert_eq!(timer.read(7), 0xff);
    timer.write(TIMER_CTRL, TIMER_CTRL_ENABLE);
    assert!(timer.enabled());
    assert!(!timer.periodic());
    assert!(!timer.tick(0));
    assert!(timer.tick(0x0210 + 50));
    assert_eq!(timer.count(), 0);
    assert_eq!(timer.control(), TIMER_CTRL_ENABLE);
}

#[test]
fn periodic_timer_with_zero_reload_stays_stopped() {
    let mut timer = TimerDevice::new();
    timer.set_count(3);
    timer.write(TIMER_CTRL, TIMER_CTRL_ENABLE | TIMER_CTRL_PERIODIC);
    assert!(timer.tick(10));
    assert_eq!(timer.count(), 0);
    assert!(!timer.tick(10));
}

#[test]
fn periodic_timer_splits_ticks_evenly() {
    let mut once = TimerDevice::new();
    once.set_reload(7);
    once.write(TIMER_CTRL, TIMER_CTRL_ENABLE | TIMER_CTRL_PERIODIC | TIMER_CTRL_RESTART);
    let mut twice = once;
    assert!(once.tick(30));
    let first = twice.tick(12);
    let second = twice.tick(18);
    assert!(first || second);
    assert_eq!(once.count(), twice.count());
    assert_eq!(once.count(), 5);
}

#[test]
fn video_registers_describe_the_framebuffer() {
    let mut video = VideoDevice::new();
    assert_eq!(video.read(VIDEO_WIDTH), 128);
    assert_eq!(video.read(VIDEO_HEIGHT), 96);
    assert_eq!(video.read(VIDEO_FORMAT), 1);
    assert_eq!(video.read(VIDEO_CTRL), 0);
    video.set_enabled(true);
    assert_eq!(video.read(VIDEO_CTRL), VIDEO_CTRL_ENABLE);
    assert!(video.enabled());
    video.write(VIDEO_CTRL, 0x02);
    assert!(!video.enabled());
    video.request_present();
    video.request_present();
    assert_eq!(video.read(VIDEO_PRESENT), 2);
    assert_eq!(video.read(9), 0xff);
}

#[test]
fn vram_accessors_check_bounds() {
    let mut video = VideoDevice::new();
    assert!(video.write_vram(VRAM_SIZE - 1, 0x12));
    assert_eq!(video.read_vram(VRAM_SIZE - 1), Some(0x12));
    assert!(!video.write_vram(VRAM_SIZE, 0x12));
    assert_eq!(video.read_vram(VRAM_SIZE), None);
    assert_eq!(video.pixel(WIDTH - 1, HEIGHT - 1), Some(0x12));
    assert_eq!(video.pixel(0, HEIGHT), None);
    assert_eq!(video.frame().len(), VRAM_SIZE);
    assert_eq!(video.pixels()[VRAM_SIZE - 1], 0x12);
    video.clear_dirty();
    assert!(!video.dirty());
    video.reset();
    assert_eq!(video, VideoDevice::new());
}

#[test]
fn copy_rgba_expands_every_pixel_or_refuses_short_buffers() {
    let mut video = VideoDevice::new();
    video.set_pixel(1, 0, 0xe0);
    let mut short = vec![7u8; VRAM_SIZE * 4 - 1];
    assert!(!video.copy_rgba(&mut short));
    assert!(short.iter().all(|&byte| byte == 7));
    let mut rgba = vec![0u8; VRAM_SIZE * 4 + 2];
    assert!(video.copy_rgba(&mut rgba));
    assert_eq!(&rgba[0..8], &[0, 0, 0, 0xff, 255, 0, 0, 0xff]);
    assert_eq!(&rgba[VRAM_SIZE * 4..], &[0, 0]);
}
