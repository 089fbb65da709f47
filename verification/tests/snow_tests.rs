use snowfall::layout::{encode, encode_all};
use snowfall::records::{FrameData, RectInstance};
use snowfall::host::{get_windows, AppWindow, PlacedWindow, WindowRecord};
use snowfall::snow::{window_buffer_size, FramePlan, SnowState, WindowEvent, MAX_WINDOWS};
use snowfall::surface::{choose_format, surface_format, SurfaceError};
use wgpu::TextureFormat;

fn rect(i: u32) -> RectInstance {
    RectInstance { pos: [i, i + 1], dim: [i + 2, i + 3] }
}

fn window(number: i64, layer: i64) -> PlacedWindow {
    PlacedWindow {
        window: AppWindow {
            owner_name: Some(format!("app {number}")),
            name: None,
            pos: [(10.0f64).to_bits(), (20.0f64).to_bits()],
            dim: [(300.0f64).to_bits(), (200.0f64).to_bits()],
            layer,
            number,
        },
        rect: rect(4 * number as u32),
    }
}

fn record(number: i64) -> WindowRecord {
    WindowRecord {
        owner_name: Some(String::from("Finder")),
        name: Some(format!("window {number}")),
        bounds: Some([1.0f64.to_bits(), 2.0f64.to_bits(), 640.0f64.to_bits(), 480.0f64.to_bits()]),
        layer: Some(0),
        number: Some(number),
    }
}

fn engine(count: usize) -> SnowState {
    SnowState::new(7, (1920, 1200), 1.6f32.to_bits(), count, 5_000)
}

fn first_frame() -> FrameData {
    FrameData {
        dt: 0,
        time: 0,
        gravity: [0.1f32.to_bits(), (-1.0f32).to_bits()],
        aspect: 1.6f32.to_bits(),
        max_age: 100.0f32.to_bits(),
    }
}

#[test]
fn a_new_engine_runs_with_the_first_frames_uniform() {
    let e = engine(1000);
    assert_eq!(e.window_id(), 7);
    assert_eq!(e.size(), (1920, 1200));
    assert_eq!(e.particle_count(), 1000);
    assert!(e.is_running());
    assert!(e.redraw());
    assert_eq!(e.frame_data(), first_frame());
    assert_eq!(*e.uniform_bytes(), encode(&first_frame()));
    assert_eq!(e.window_rects().len(), MAX_WINDOWS);
    assert!(e.window_rects().iter().all(|r| *r == RectInstance { pos: [0, 0], dim: [0, 0] }));
    assert_eq!(e.window_count(), 0);
    assert_eq!(window_buffer_size(), 1600);
}

#[test]
fn particle_count_is_kept_for_any_count() {
    for n in [0usize, 1, 4, 255, 256, 1000, 1_000_000] {
        let mut e = engine(n);
        assert_eq!(e.particle_count(), n);
        e.update(1.0f32.to_bits(), 1.0f32.to_bits(), &vec![window(1, 0)]);
        let _ = e.render(Ok(()));
        e.event(WindowEvent::Occluded(true));
        assert_eq!(e.particle_count(), n);
    }
}

#[test]
fn pausing_stops_redraws_and_resuming_asks_for_one() {
    let mut e = engine(4);
    assert!(!e.set_running(false));
    assert!(!e.is_running());
    assert!(!e.redraw());
    assert!(e.set_running(true));
    assert!(e.is_running());
    assert!(e.redraw());
    assert!(e.set_running(true));
}

#[test]
fn occlusion_toggles_running() {
    let mut e = engine(4);
    assert!(!e.event(WindowEvent::Occluded(true)));
    assert!(!e.is_running());
    assert!(!e.redraw());
    assert!(!e.event(WindowEvent::Other));
    assert!(!e.is_running());
    assert!(e.event(WindowEvent::Occluded(false)));
    assert!(e.is_running());
    assert!(e.redraw());
    assert!(!e.event(WindowEvent::Other));
    assert!(e.is_running());
}

#[test]
fn only_windows_of_layer_zero_are_written_and_kept() {
    let mut e = engine(4);
    let ws = vec![window(1, 0), window(2, 25), window(3, 0), window(4, -1)];
    let bytes = e.update_windows(&ws);
    assert_eq!(bytes, encode_all(&vec![rect(4), rect(12)]));
    assert_eq!(e.window_rects()[0], rect(4));
    assert_eq!(e.window_rects()[1], rect(12));
    assert_eq!(e.window_rects()[2], RectInstance { pos: [0, 0], dim: [0, 0] });
    assert_eq!(e.window_count(), 2);
    assert_eq!(e.window(1), Some(&ws[0].window));
    assert_eq!(e.window(3), Some(&ws[2].window));
    assert_eq!(e.window(2), None);
    assert_eq!(e.window(4), None);
}

#[test]
fn more_windows_than_slots_are_cut_to_the_first_hundred() {
    let mut e = engine(4);
    let ws: Vec<PlacedWindow> = (0..150).map(|i| window(i, 0)).collect();
    let bytes = e.update_windows(&ws);
    assert_eq!(bytes.len(), 1600);
    let first: Vec<RectInstance> = (0..100).map(|i| rect(4 * i)).collect();
    assert_eq!(bytes, encode_all(&first));
    assert_eq!(*e.window_rects(), first);
    assert_eq!(e.window_count(), 150);
}

#[test]
fn fewer_windows_than_slots_leave_the_rest_untouched() {
    let mut e = engine(4);
    let many: Vec<PlacedWindow> = (0..100).map(|i| window(i, 0)).collect();
    e.update_windows(&many);
    let few = vec![window(500, 0), window(501, 3), window(502, 0)];
    let bytes = e.update_windows(&few);
    assert_eq!(bytes.len(), 32);
    assert_eq!(e.window_rects().len(), 100);
    assert_eq!(e.window_rects()[0], rect(2000));
    assert_eq!(e.window_rects()[1], rect(2008));
    for i in 2..100u32 {
        assert_eq!(e.window_rects()[i as usize], rect(4 * i));
    }
    assert_eq!(e.window_count(), 2);
    assert_eq!(e.window(0), None);
    let none = e.update_windows(&vec![]);
    assert_eq!(none, Vec::<u8>::new());
    assert_eq!(e.window_rects()[0], rect(2000));
    assert_eq!(e.window_count(), 0);
}

#[test]
fn exactly_a_hundred_windows_fill_the_buffer() {
    let mut e = engine(4);
    let ws: Vec<PlacedWindow> = (0..100).map(|i| window(i, 0)).collect();
    assert_eq!(e.update_windows(&ws).len(), 1600);
    assert_eq!(e.window_rects()[99], rect(396));
}

#[test]
fn of_two_windows_with_one_number_the_later_is_kept() {
    let mut e = engine(4);
    let mut second = window(9, 0);
    second.window.name = Some(String::from("later"));
    let ws = vec![window(9, 0), second.clone()];
    assert_eq!(e.update_windows(&ws).len(), 32);
    assert_eq!(e.window_count(), 1);
    assert_eq!(e.window(9), Some(&second.window));
}

#[test]
fn a_tick_sets_the_hosts_times_and_leaves_the_gpus() {
    let mut e = engine(4);
    let bytes = e.update(3.5f32.to_bits(), 0.016f32.to_bits(), &vec![window(1, 0)]);
    assert_eq!(bytes, encode(&rect(4)));
    let expected = FrameData { dt: 0.016f32.to_bits(), time: 3.5f32.to_bits(), ..first_frame() };
    assert_eq!(e.frame_data(), expected);
    assert_eq!(*e.uniform_bytes(), encode(&first_frame()));
    assert_eq!(e.render(Ok(())).map(|p| p.instances), Ok(4));
    assert_eq!(*e.uniform_bytes(), encode(&expected));
    let again = e.uniform_bytes().clone();
    assert!(e.render(Ok(())).is_ok());
    assert_eq!(*e.uniform_bytes(), again);
}

#[test]
fn a_frame_dispatches_one_workgroup_for_each_256_flakes() {
    let tint = [0.0f64.to_bits(), 0.2f64.to_bits(), 0.3f64.to_bits(), 0.0f64.to_bits()];
    for (count, groups) in [(0usize, 0u32), (1, 1), (4, 1), (255, 1), (256, 1), (257, 2), (1000, 4)] {
        let mut e = engine(count);
        assert_eq!(
            e.render(Ok(())),
            Ok(FramePlan { workgroups: groups, vertices: 6, instances: count as u32, clear: tint })
        );
    }
}

#[test]
fn a_surface_error_is_handed_on_after_the_uniform_was_written() {
    for err in [
        SurfaceError::Timeout,
        SurfaceError::Outdated,
        SurfaceError::Lost,
        SurfaceError::OutOfMemory,
    ] {
        let mut e = engine(4);
        e.update(1.0f32.to_bits(), 1.0f32.to_bits(), &vec![]);
        assert_eq!(e.render(Err(err)), Err(err));
        assert_eq!(*e.uniform_bytes(), encode(&e.frame_data()));
    }
}

#[test]
fn only_want_of_memory_is_fatal() {
    assert!(SurfaceError::OutOfMemory.fatal());
    assert!(!SurfaceError::Lost.fatal());
    assert!(!SurfaceError::Outdated.fatal());
    assert!(!SurfaceError::Timeout.fatal());
}

#[test]
fn choose_format_takes_the_first_set_flag_or_the_first() {
    assert_eq!(choose_format(&vec![false, true, true]), 1);
    assert_eq!(choose_format(&vec![true, true]), 0);
    assert_eq!(choose_format(&vec![false, false, false]), 0);
    assert_eq!(choose_format(&vec![false, false, true]), 2);
    assert_eq!(choose_format(&vec![false]), 0);
}

#[test]
fn surface_format_prefers_the_first_srgb_format() {
    let formats = vec![
        TextureFormat::Bgra8Unorm,
        TextureFormat::Rgba8UnormSrgb,
        TextureFormat::Bgra8UnormSrgb,
    ];
    assert_eq!(surface_format(&formats), TextureFormat::Rgba8UnormSrgb);
    let plain = vec![TextureFormat::Rgba16Float, TextureFormat::Bgra8Unorm];
    assert_eq!(surface_format(&plain), TextureFormat::Rgba16Float);
    assert_eq!(surface_format(&vec![TextureFormat::Bgra8UnormSrgb]), TextureFormat::Bgra8UnormSrgb);
    let last = vec![TextureFormat::Rgba8Unorm, TextureFormat::Bgra8Unorm, TextureFormat::Bgra8UnormSrgb];
    assert_eq!(surface_format(&last), TextureFormat::Bgra8UnormSrgb);
}

#[test]
fn a_record_with_all_it_needs_is_decoded() {
    let got = record(42).decode();
    assert_eq!(
        got,
        Some(AppWindow {
            owner_name: Some(String::from("Finder")),
            name: Some(String::from("window 42")),
            pos: [1.0f64.to_bits(), 2.0f64.to_bits()],
            dim: [640.0f64.to_bits(), 480.0f64.to_bits()],
            layer: 0,
            number: 42,
        })
    );
    let nameless = WindowRecord { owner_name: None, name: None, ..record(5) };
    let window = nameless.decode().unwrap();
    assert_eq!(window.owner_name, None);
    assert_eq!(window.name, None);
    assert_eq!(window.number, 5);
}

#[test]
fn a_record_that_lacks_an_entry_is_not_decoded() {
    assert_eq!(WindowRecord { bounds: None, ..record(1) }.decode(), None);
    assert_eq!(WindowRecord { layer: None, ..record(1) }.decode(), None);
    assert_eq!(WindowRecord { number: None, ..record(1) }.decode(), None);
}

#[test]
fn a_snapshot_keeps_the_hosts_order_and_skips_what_it_cannot_read() {
    let records = vec![
        Some(record(3)),
        None,
        Some(record(1)),
        Some(WindowRecord { layer: None, ..record(8) }),
        Some(WindowRecord { layer: Some(25), ..record(2) }),
    ];
    let (windows, skipped) = get_windows(&records);
    let numbers: Vec<i64> = windows.iter().map(|w| w.number).collect();
    assert_eq!(numbers, vec![3, 1, 2]);
    assert_eq!(windows[2].layer, 25);
    assert_eq!(skipped, vec![1, 3]);
    let (none, nothing) = get_windows(&vec![]);
    assert!(none.is_empty());
    assert!(nothing.is_empty());
    let (lost, all) = get_windows(&vec![None, None]);
    assert!(lost.is_empty());
    assert_eq!(all, vec![0, 1]);
}

#[test]
fn the_frame_clock_gives_both_times_and_starts_anew() {
    let mut e = engine(4);
    assert_eq!(e.clock(5_000), (0, 0));
    assert_eq!(e.clock(21_000), (16_000, 16_000));
    assert_eq!(e.clock(38_500), (33_500, 17_500));
    assert_eq!(e.clock(38_500), (33_500, 0));
    assert_eq!(e.clock(u64::MAX), (u64::MAX - 5_000, u64::MAX - 38_500));
}

#[test]
fn a_clock_that_ran_backwards_gives_no_time() {
    let mut e = engine(4);
    assert_eq!(e.clock(4_000), (0, 0));
    assert_eq!(e.clock(4_500), (0, 500));
    assert_eq!(e.clock(6_000), (1_000, 1_500));
    assert_eq!(e.clock(0), (0, 0));
}
