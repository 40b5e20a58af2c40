use bracket::terminal::window::{window_action, WindowAction, WindowEventKind};
use bracket::terminal::frame::{
    frame_due, frame_sleep, frame_wait_time, mouse_button_index, BufferDimensions, FrameCounters,
    MouseButtonKind,
};
use bracket::terminal::keycodes::{keycode_to_virtual_keycode, map_keycode, PhysicalKeyCode, VirtualKeyCode};
use bracket::terminal::scaler::{
    chars_for_font, default_gutter_size, glyph_cell, largest_active_font, GutterPlatform, ScreenScaler,
};
use bracket::terminal::wrap::{char_utf8_len, wrap_text};

fn smooth_resize(scaler: &mut ScreenScaler, aspect_ratio: f32, width: u32, height: u32, max_font: (u32, u32)) {
    let desired_y = (width as f32 * aspect_ratio) as u32;
    let desired_x = (height as f32 / aspect_ratio) as u32;
    scaler.change_physical_size_smooth(width, height, desired_y, desired_x, max_font, scaler.desired_gutter);
}

#[test]
fn maps_representative_keys() {
    assert_eq!(map_keycode(PhysicalKeyCode::KeyA), Some(VirtualKeyCode::A));
    assert_eq!(map_keycode(PhysicalKeyCode::ArrowLeft), Some(VirtualKeyCode::Left));
    assert_eq!(map_keycode(PhysicalKeyCode::Numpad8), Some(VirtualKeyCode::Numpad8));
    assert_eq!(map_keycode(PhysicalKeyCode::PrintScreen), Some(VirtualKeyCode::Snapshot));
    assert_eq!(map_keycode(PhysicalKeyCode::NumpadEnter), Some(VirtualKeyCode::NumpadEnter));
}

#[test]
fn returns_none_for_unmapped_keys() {
    assert_eq!(map_keycode(PhysicalKeyCode::SuperLeft), None);
}

#[test]
fn native_backend_maps_more_keys() {
    assert_eq!(keycode_to_virtual_keycode(&PhysicalKeyCode::SuperLeft), Some(VirtualKeyCode::LWin));
    assert_eq!(keycode_to_virtual_keycode(&PhysicalKeyCode::IntlYen), Some(VirtualKeyCode::Backslash));
    assert_eq!(keycode_to_virtual_keycode(&PhysicalKeyCode::NumpadBackspace), Some(VirtualKeyCode::Back));
    assert_eq!(keycode_to_virtual_keycode(&PhysicalKeyCode::KeyA), Some(VirtualKeyCode::A));
    assert_eq!(keycode_to_virtual_keycode(&PhysicalKeyCode::Unlisted), None);
    assert_eq!(map_keycode(PhysicalKeyCode::Unlisted), None);
}

#[test]
fn backends_agree_where_both_map() {
    for code in [
        PhysicalKeyCode::KeyZ,
        PhysicalKeyCode::Digit5,
        PhysicalKeyCode::F12,
        PhysicalKeyCode::Quote,
        PhysicalKeyCode::Backquote,
        PhysicalKeyCode::NumpadComma,
    ] {
        assert!(map_keycode(code).is_some());
        assert_eq!(map_keycode(code), keycode_to_virtual_keycode(&code));
    }
}

#[test]
fn even_gutter_is_split_equally() {
    let scaler = ScreenScaler::new(8, 800, 600, 8);

    assert_eq!(scaler.gutter_left, 4);
    assert_eq!(scaler.gutter_right, 4);

    assert_eq!(scaler.gutter_top, 4);
    assert_eq!(scaler.gutter_bottom, 4);

    assert_eq!(scaler.available_width, 792);
    assert_eq!(scaler.available_height, 592);
}

#[test]
fn odd_gutter_distributes_extra_pixel_to_right_and_bottom() {
    let scaler = ScreenScaler::new(9, 800, 600, 9);

    assert_eq!(scaler.gutter_left, 4);
    assert_eq!(scaler.gutter_right, 5);

    assert_eq!(scaler.gutter_top, 4);
    assert_eq!(scaler.gutter_bottom, 5);

    assert_eq!(scaler.available_width, 791);
    assert_eq!(scaler.available_height, 591);
}

#[test]
fn new_window_size_adds_desired_gutter() {
    let mut scaler = ScreenScaler::new(8, 800, 600, 8);

    let size = scaler.new_window_size();

    assert_eq!(size.0, 808);
    assert_eq!(size.1, 608);

    assert_eq!(scaler.logical_size, (800, 600));
}

#[test]
fn change_physical_size_updates_dimensions_directly() {
    let mut scaler = ScreenScaler::new(8, 800, 600, 8);

    scaler.change_physical_size(1920, 1080, (8.0f32 * 1.5) as u32);

    assert_eq!(scaler.physical_size, (1920, 1080));

    assert!(scaler.available_width < 1920);
    assert!(scaler.available_height < 1080);
    assert_eq!(scaler.available_width, 1908);
    assert_eq!(scaler.gutter_left, 6);
}

#[test]
fn smooth_resize_adds_vertical_gutter_when_height_is_larger_than_aspect_ratio() {
    let mut scaler = ScreenScaler::new(0, 800, 600, 0);

    smooth_resize(&mut scaler, 600.0 / 800.0, 1600, 1400, (8, 16));

    assert!(scaler.smooth_gutter_y > 0);

    assert_eq!(scaler.smooth_gutter_x, 0);

    assert!(scaler.available_height < 1400);
}

#[test]
fn smooth_resize_recomputes_gutters_from_current_size_only() {
    let mut scaler = ScreenScaler::new(0, 800, 600, 0);

    smooth_resize(&mut scaler, 600.0 / 800.0, 1600, 900, (8, 16));
    assert!(scaler.smooth_gutter_x > 0 || scaler.smooth_gutter_y > 0);
    assert!(
        (scaler.smooth_gutter_x > 0 && scaler.smooth_gutter_y == 0)
            || (scaler.smooth_gutter_x == 0 && scaler.smooth_gutter_y > 0)
    );

    smooth_resize(&mut scaler, 600.0 / 800.0, 1600, 1400, (8, 16));
    assert!(
        (scaler.smooth_gutter_x > 0 && scaler.smooth_gutter_y == 0)
            || (scaler.smooth_gutter_x == 0 && scaler.smooth_gutter_y > 0)
    );
    assert_eq!(scaler.smooth_gutter_x, 0);

    assert_eq!(scaler.available_width, scaler.physical_size.0 - (scaler.gutter_left + scaler.gutter_right));
    assert_eq!(scaler.available_height, scaler.physical_size.1 - (scaler.gutter_top + scaler.gutter_bottom));
}

#[test]
fn smooth_resize_exact_gutters() {
    let mut scaler = ScreenScaler::new(0, 800, 600, 0);
    scaler.change_physical_size_smooth(1600, 1400, 1200, 1866, (8, 16), 0);
    assert_eq!(scaler.smooth_gutter_y, 200);
    assert_eq!(scaler.gutter_top, 100);
    assert_eq!(scaler.gutter_bottom, 100);
    assert_eq!(scaler.available_height, 1200);
    scaler.change_physical_size_smooth(1600, 900, 1200, 1200, (7, 16), 0);
    assert_eq!(scaler.smooth_gutter_x, 1600 - 1197);
    assert_eq!(scaler.gutter_left, 202);
    assert_eq!(scaler.gutter_right, 201);
}

#[test]
fn resized_flag_resets_after_query() {
    let mut scaler = ScreenScaler::new(8, 800, 600, 8);

    assert!(scaler.get_resized_and_reset());

    assert!(!scaler.get_resized_and_reset());
}

#[test]
fn default_scaler_is_empty_and_resized() {
    let mut scaler = ScreenScaler::default();
    assert_eq!(scaler.physical_size, (0, 0));
    assert_eq!(scaler.available_width, 0);
    assert!(scaler.get_resized_and_reset());
}

#[test]
fn gutter_defaults_per_platform() {
    assert_eq!(default_gutter_size(GutterPlatform::WindowsOrMacos), 8);
    assert_eq!(default_gutter_size(GutterPlatform::Other), 0);
}

#[test]
fn glyph_cell_counts_rows_from_the_bottom() {
    assert_eq!(glyph_cell(16, 16, 0), (0, 16));
    assert_eq!(glyph_cell(16, 16, 16), (0, 15));
    assert_eq!(glyph_cell(16, 16, 35), (3, 14));
}

#[test]
fn largest_font_takes_each_axis_separately() {
    assert_eq!(largest_active_font(&vec![]), (0, 0));
    assert_eq!(largest_active_font(&vec![(8, 16), (12, 10), (4, 4)]), (12, 16));
}

#[test]
fn chars_for_font_divides_available_space() {
    assert_eq!(chars_for_font((800, 600), (8, 16)), (100, 37));
}

#[test]
fn frame_counters_sample_rate_once_a_second() {
    let mut counters = FrameCounters::new(0, 0);
    let s = counters.tick(0, 16);
    assert_eq!(s.fps, None);
    assert_eq!(s.frame_time_ms, Some(16));
    let s = counters.tick(0, 16);
    assert_eq!(s.fps, None);
    assert_eq!(s.frame_time_ms, None);
    let s = counters.tick(2, 2000);
    assert_eq!(s.fps, Some((3, 2)));
    assert_eq!(s.frame_time_ms, Some(1984));
    assert_eq!(counters.frames, 0);
    assert_eq!(counters.prev_seconds, 2);
    assert_eq!(counters.prev_ms, 2000);
}

#[test]
fn frame_pacing_waits_out_the_budget() {
    assert_eq!(frame_wait_time(None), 33);
    assert_eq!(frame_wait_time(Some(100)), 100);
    assert!(frame_due(33, 33));
    assert!(!frame_due(32, 33));
    assert_eq!(frame_sleep(10, 33), Some(23));
    assert_eq!(frame_sleep(10, 100), Some(33));
    assert_eq!(frame_sleep(33, 33), None);
}

#[test]
fn mouse_buttons_are_numbered() {
    assert_eq!(mouse_button_index(MouseButtonKind::Left), 0);
    assert_eq!(mouse_button_index(MouseButtonKind::Right), 1);
    assert_eq!(mouse_button_index(MouseButtonKind::Middle), 2);
    assert_eq!(mouse_button_index(MouseButtonKind::Back), 3);
    assert_eq!(mouse_button_index(MouseButtonKind::Forward), 4);
    assert_eq!(mouse_button_index(MouseButtonKind::Other(7)), 12);
}

#[test]
fn buffer_rows_are_padded_to_the_alignment() {
    let d = BufferDimensions::new(100, 50, 256);
    assert_eq!((d.width, d.height, d.padded_bytes_per_row), (100, 50, 512));
    let d = BufferDimensions::new(64, 1, 256);
    assert_eq!(d.padded_bytes_per_row, 256);
    let d = BufferDimensions::new(0, 1, 256);
    assert_eq!(d.padded_bytes_per_row, 0);
}

#[test]
fn wrap_text_cuts_at_newlines_and_width() {
    let lines = wrap_text("abcdef\ngh", 3);
    assert_eq!(lines, vec![vec!['a', 'b', 'c'], vec!['d', 'e', 'f'], vec!['g', 'h']]);
    let lines = wrap_text("ab\n\ncd\n", 10);
    assert_eq!(lines, vec![vec!['a', 'b'], vec!['c', 'd']]);
    assert!(wrap_text("", 4).is_empty());
}

#[test]
fn wrap_text_counts_bytes_not_characters() {
    let lines = wrap_text("éab", 3);
    assert_eq!(lines, vec![vec!['é', 'a'], vec!['b']]);
    assert_eq!(char_utf8_len('a'), 1);
    assert_eq!(char_utf8_len('é'), 2);
    assert_eq!(char_utf8_len('가'), 3);
    assert_eq!(char_utf8_len('🎉'), 4);
}

#[test]
fn wrap_text_keeps_every_character_but_newlines() {
    let text = "one two\nthree\n\nfour five six";
    let lines = wrap_text(text, 4);
    let joined: String = lines.iter().flat_map(|l| l.iter()).collect();
    assert_eq!(joined, text.replace('\n', ""));
    assert!(lines.iter().all(|l| !l.is_empty() && !l.contains(&'\n')));
}

#[test]
fn wrap_text_with_zero_width_puts_each_character_on_its_own_line() {
    let lines = wrap_text("ab", 0);
    assert_eq!(lines, vec![vec!['a'], vec!['b']]);
}

#[test]
fn window_events_become_actions() {
    assert_eq!(window_action(false, true, false, WindowEventKind::RedrawRequested), WindowAction::Ignore);
    assert_eq!(window_action(true, false, false, WindowEventKind::CloseRequested), WindowAction::Ignore);
    assert_eq!(window_action(true, true, false, WindowEventKind::RedrawRequested), WindowAction::Redraw);
    assert_eq!(window_action(true, true, false, WindowEventKind::CloseRequested), WindowAction::Exit);
    assert_eq!(window_action(true, true, true, WindowEventKind::CloseRequested), WindowAction::ReportClose);
    assert_eq!(
        window_action(true, true, true, WindowEventKind::Moved { x: -3, y: 4 }),
        WindowAction::MoveAndQueueCurrentResize { x: -3, y: 4 }
    );
    assert_eq!(
        window_action(true, true, true, WindowEventKind::Resized { width: 640, height: 480 }),
        WindowAction::QueueResize { width: 640, height: 480 }
    );
    assert_eq!(
        window_action(true, true, true, WindowEventKind::MouseInput { button: MouseButtonKind::Other(2), pressed: true }),
        WindowAction::MouseButton { index: 7, pressed: true }
    );
    assert_eq!(window_action(true, true, true, WindowEventKind::KeyboardInput), WindowAction::Deliver);
    assert_eq!(window_action(true, true, true, WindowEventKind::Other), WindowAction::Ignore);
}
