use sh4der_jockey::audio::{audio_device_index, push_channel, Channels};
use sh4der_jockey::beatsync::BeatSync;
use sh4der_jockey::cache::{Cache, CacheEntry};
use sh4der_jockey::events::{
    is_pipeline_file, key_response, pipeline_files, pipeline_index, should_rebuild, Key, KeyInput,
};
use sh4der_jockey::ndi::{match_sources, needs_new_texture, stale_connections};
use sh4der_jockey::ringbuffer::RingBuffer;
use sh4der_jockey::texture::{FrameBuffer, Texture};

fn key(key: Key, shift: bool, ctrl: bool, alt: bool) -> KeyInput {
    KeyInput { key, pressed: true, shift, ctrl, alt, logo: false }
}

#[test]
fn key_presses() {
    let r = key_response(key(Key::Return, false, true, false), true);
    assert!(r.rebuild && !r.toggle_fullscreen && !r.screenshot);
    let r = key_response(key(Key::Return, false, false, true), true);
    assert!(!r.rebuild && r.toggle_fullscreen && r.alt_pressed);
    let r = key_response(key(Key::Return, false, false, true), false);
    assert!(!r.toggle_fullscreen);
    let r = key_response(key(Key::Return, true, true, false), true);
    assert!(!r.rebuild);
    let r = key_response(key(Key::S, true, true, false), true);
    assert!(r.screenshot);
    let r = key_response(key(Key::S, true, false, false), true);
    assert!(!r.screenshot);
    let r = key_response(key(Key::S, false, false, false), true);
    assert!(!r.screenshot);
    let mut released = key(Key::Return, false, true, false);
    released.pressed = false;
    assert!(!key_response(released, true).rebuild);
}

#[test]
fn pipeline_file_selection() {
    assert!(is_pipeline_file("pipeline.yaml"));
    assert!(!is_pipeline_file("config.yaml"));
    assert!(!is_pipeline_file("shader.glsl"));
    assert!(is_pipeline_file(".yaml"));
    let names = vec![
        "a.yaml".to_string(),
        "config.yaml".to_string(),
        "b.frag".to_string(),
        "b.yaml".to_string(),
    ];
    assert_eq!(pipeline_files(names), vec!["a.yaml", "b.yaml"]);
    assert_eq!(pipeline_index(1, 3), 0);
    assert_eq!(pipeline_index(3, 2), 2);
    assert!(should_rebuild(true, 301));
    assert!(!should_rebuild(true, 300));
    assert!(!should_rebuild(false, 1000));
}

#[test]
fn cache_keeps_the_latest_texture_per_path() {
    let mut c: Cache<u32> = Cache::new();
    assert_eq!(c.fetch("a.png"), None);
    c.store("a.png".to_string(), 1);
    c.store("b.png".to_string(), 2);
    c.store("a.png".to_string(), 3);
    assert_eq!(c.fetch("a.png"), Some(&3));
    assert_eq!(c.fetch("b.png"), Some(&2));
    assert_eq!(CacheEntry::new(7).tex, 7);
}

#[test]
fn tap_tempo_series() {
    let mut sync = BeatSync::new();
    sync.trigger_at(250_000_000);
    sync.trigger_at(500_000_000);
    sync.trigger_at(750_000_000);
    assert_eq!(sync.count, 3);
    assert_eq!(sync.span(), (3, 750_000_000));
    assert_eq!(sync.first, 0);
    sync.trigger_at(10_000_000_000);
    assert_eq!(sync.count, 1);
    assert_eq!(sync.first, 10_000_000_000);
    assert_eq!(sync.span(), (1, 0));
    // a full counter is reset by a long pause
    sync.count = u32::MAX;
    sync.trigger_at(20_000_000_000);
    assert_eq!(sync.count, 1);
    // a clock reading before the last tap counts as no pause
    sync.trigger_at(5);
    assert_eq!(sync.count, 2);
    assert_eq!(sync.first, 20_000_000_000);
    let mut live = BeatSync::new();
    live.trigger();
    assert!(live.count == 1);
    live._reset();
    assert_eq!(live.count, 0);
}

/// Taps every 250 ms give four beats per second, and the beat count grows
/// by one per tap (the tempo arithmetic of the front end, on the measured
/// span).
#[test]
fn three_beats_simulated() {
    let mut sync = BeatSync::new();
    for k in 1..=3u128 {
        let t = k * 250_000_000;
        sync.trigger_at(t);
        let (taps, span) = sync.span();
        let rate = taps as f64 / (span as f64 / 1e9);
        assert!((rate - 4.0).abs() < 0.1, "{}", rate);
        let beat = rate * ((t - sync.first) as f64 / 1e9);
        assert!((beat - k as f64).abs() < 0.1, "{}", beat);
    }
}

#[test]
fn channels_and_deinterleaving() {
    assert_eq!(Channels::from_count(1), Channels::Mono);
    assert_eq!(Channels::from_count(2), Channels::Stereo);
    assert_eq!(Channels::from_count(6), Channels::Unsupported);
    let mut left = RingBuffer::<i32>::new(4);
    let mut right = RingBuffer::<i32>::new(4);
    let data = [1, -1, 2, -2, 3, -3];
    push_channel(&mut left, &data, 0, 2);
    push_channel(&mut right, &data, 1, 2);
    let mut l = [0; 4];
    let mut r = [0; 4];
    left.get_vec(&mut l);
    right.get_vec(&mut r);
    assert_eq!(l, [0, 1, 2, 3]);
    assert_eq!(r, [0, -1, -2, -3]);
}

#[test]
fn framebuffer_resolution() {
    let fb = FrameBuffer { tex_id: 1, fb_id: 2, res: [640, 480] };
    assert_eq!(fb.resolution(), [640, 480, 0]);
}

#[test]
fn audio_device_by_name() {
    let names = vec![
        "Built-in Microphone".to_string(),
        "USB Audio Input".to_string(),
        "USB Audio Input 2".to_string(),
    ];
    assert_eq!(audio_device_index(&names, "USB Audio"), Some(2));
    assert_eq!(audio_device_index(&names, "Microphone"), Some(0));
    assert_eq!(audio_device_index(&names, "Line In"), None);
}

#[test]
fn ndi_sources_are_matched_by_name() {
    let found = vec![
        "STUDIO (Camera 1)".to_string(),
        "STUDIO (Screen)".to_string(),
        "LAPTOP (Camera 2)".to_string(),
    ];
    let requested = vec!["Screen".to_string(), "Camera".to_string()];
    assert_eq!(match_sources(&found, &requested), vec![(1, 0), (0, 1), (1, 2)]);
    let connected = vec!["Camera".to_string(), "Old".to_string()];
    assert_eq!(stale_connections(&connected, &requested), vec![false, true]);
    assert!(needs_new_texture([1, 1, 0], 1920, 1080));
    assert!(!needs_new_texture([1920, 1080, 0], 1920, 1080));
}

#[test]
fn window_minimized_by_zero_size() {
    let mut c = sh4der_jockey::viewport::Cache::new();
    assert!(c.resized(800, 600));
    assert_eq!(c.size, Some((800, 600)));
    assert!(!c.resized(0, 0));
    assert!(c.minimized);
    assert_eq!(c.size, Some((800, 600)));
    c.moved(10, 20, false);
    assert_eq!(c.pos, None);
    c.moved(-32000, -32000, true);
    assert!(c.minimized);
    c.moved(10, 20, true);
    assert!(!c.minimized);
    assert_eq!(c.pos, Some((10, 20)));
}
