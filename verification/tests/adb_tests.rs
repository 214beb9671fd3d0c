use android_adb_run::adb::commands::{
    swipe_command, tap_command, touch_detected, touch_poll_command,
};
use android_adb_run::adb::framebuffer::{
    detect_bytes_per_pixel, framebuffer_to_png_server, framebuffer_to_png_usb, jpeg_to_png,
    pixel_count_of, plan_server, plan_usb, rgb565_to_rgb, FramePlan, FramebufferError,
};
use android_adb_run::adb::parse::{
    auth_echo_ok, find_touch_device_plain, framebuffer_error_is_desync, is_touch_event_line, looks_like_ipv4,
    parse_devices, parse_ip_route, parse_screen_size, score_touch_device, select_touch_device,
    trim_start_matches,
};
use android_adb_run::adb::types::{tap_in_bounds, Device, TouchActivityState};

// ------------------------------------------------------------------
// Touch activity
// ------------------------------------------------------------------

#[test]
fn test_touch_state_initial() {
    let state = TouchActivityState::new(30);

    assert!(!state.is_human_active(), "Should not be active initially");
    assert!(!state.has_activity_expired(), "Nothing to expire initially");
    assert_eq!(state.get_remaining_seconds(), None, "No timeout initially");
}

#[test]
fn test_touch_activity_detection() {
    let mut state = TouchActivityState::new(30);

    state.mark_touch_activity();

    assert!(state.is_human_active(), "Should detect touch activity");

    let remaining = state.get_remaining_seconds();
    assert!(remaining.is_some(), "Should have remaining time");
    assert!(remaining.unwrap() <= 30, "Remaining should be <= 30s");
}

#[test]
fn test_touch_activity_clear() {
    let mut state = TouchActivityState::new(30);

    state.mark_touch_activity();
    assert!(state.is_human_active(), "Should be active after touch");

    state.clear_touch_activity();
    assert!(!state.is_human_active(), "Should not be active after clear");
    assert_eq!(state.get_remaining_seconds(), None, "No timeout after clear");
}

#[test]
fn touch_state_on_a_given_clock() {
    let mut state = TouchActivityState::new_with_duration(100);
    state.mark_touch_activity_at(1_000);
    assert!(state.is_human_active_at(1_050));
    assert!(!state.has_activity_expired_at(1_050));
    assert_eq!(state.get_remaining_seconds_at(1_050), Some(0));
    assert!(!state.is_human_active_at(1_100));
    assert!(state.has_activity_expired_at(1_100));
    assert_eq!(state.get_remaining_seconds_at(1_100), None);
}

#[test]
fn touch_state_remaining_whole_seconds() {
    let mut state = TouchActivityState::new(30);
    state.mark_touch_activity_at(10_000);
    assert_eq!(state.get_remaining_seconds_at(10_000), Some(30));
    assert_eq!(state.get_remaining_seconds_at(12_500), Some(27));
    assert_eq!(state.get_remaining_seconds_at(39_999), Some(0));
    assert_eq!(state.get_remaining_seconds_at(40_000), None);
}

#[test]
fn touch_state_refresh_extends_activity() {
    let mut state = TouchActivityState::new_with_duration(100);
    state.mark_touch_activity_at(0);
    state.update_activity_at(50);
    assert_eq!(state.last_touch_time, Some(50));
    assert!(state.is_human_active_at(125), "Should be active after refresh");
    assert!(state.is_human_active_at(149));
    assert!(!state.is_human_active_at(150), "Refreshed timeout has passed");
}

#[test]
fn test_touch_activity_refresh_by_the_clock() {
    let mut state = TouchActivityState::new_with_duration(100_000);
    state.mark_touch_activity();
    state.update_activity();
    assert!(state.is_human_active(), "Should be active after refresh");
}

// ------------------------------------------------------------------
// Bounds
// ------------------------------------------------------------------

#[test]
fn test_tap_bounds_validation() {
    let screen_x = 1080;
    let screen_y = 2400;

    assert!(tap_in_bounds(0, 0, screen_x, screen_y));
    assert!(tap_in_bounds(500, 1000, screen_x, screen_y));
    assert!(tap_in_bounds(screen_x, screen_y, screen_x, screen_y));

    assert!(!tap_in_bounds(screen_x + 1, 0, screen_x, screen_y));
    assert!(!tap_in_bounds(0, screen_y + 1, screen_x, screen_y));
    assert!(!tap_in_bounds(2000, 3000, screen_x, screen_y));
}

// ------------------------------------------------------------------
// `wm size`
// ------------------------------------------------------------------

fn parse_wm_size_output(output: &str) -> Option<(u32, u32)> {
    parse_screen_size(output).ok()
}

#[test]
fn test_parse_screen_size() {
    let output = "Physical size: 1080x2400\n";
    let result = parse_wm_size_output(output);
    assert_eq!(result, Some((1080, 2400)));
}

#[test]
fn test_parse_screen_size_with_noise() {
    let output = "Override size: 1080x1920\nPhysical size: 1080x2400\n";
    let result = parse_wm_size_output(output);
    assert_eq!(result, Some((1080, 2400)));
}

#[test]
fn test_parse_screen_size_invalid() {
    assert_eq!(parse_wm_size_output(""), None);
    assert_eq!(parse_wm_size_output("No size info"), None);
    assert_eq!(parse_wm_size_output("Physical size: invalid"), None);
    assert_eq!(parse_wm_size_output("Physical size: 1080"), None);
}

#[test]
fn screen_size_error_text() {
    assert_eq!(
        parse_screen_size("nothing here"),
        Err("Could not parse screen size".to_string())
    );
}

#[test]
fn screen_size_trims_and_skips_bad_lines() {
    assert_eq!(
        parse_screen_size("Physical size: 12xab\r\nPhysical size:   720x1280  \r\n"),
        Ok((720, 1280))
    );
    assert_eq!(parse_screen_size("Physical size: 1x2x3\n"), Err("Could not parse screen size".to_string()));
}

// ------------------------------------------------------------------
// `getevent`
// ------------------------------------------------------------------

#[test]
fn test_touch_event_detection() {
    assert!(is_touch_event_line("0003 0035 00000123    ABS_MT_POSITION_X"));
    assert!(is_touch_event_line("0003 0036 00000456    ABS_MT_POSITION_Y"));
    assert!(is_touch_event_line(
        "[  12345.678] /dev/input/event2: 0001 014a 00000001    BTN_TOUCH         DOWN"
    ));
    assert!(is_touch_event_line("BTN_TOOL_FINGER DOWN"));
    assert!(is_touch_event_line("ABS_X 100"));
    assert!(is_touch_event_line("ABS_Y 200"));

    assert!(!is_touch_event_line("0001 0072 00000001    KEY_VOLUMEDOWN"));
    assert!(!is_touch_event_line("Random log line"));
    assert!(!is_touch_event_line(""));
}

#[test]
fn raw_touch_codes_need_type_0003() {
    assert!(is_touch_event_line("0003 0035 1"));
    assert!(!is_touch_event_line("0001 0035 1"));
    assert!(!is_touch_event_line("0003 0001 1"));
}

#[test]
fn touch_device_scores() {
    assert!(score_touch_device("\"sec_touchscreen\"") > score_touch_device("\"gpio-keys\""));
    assert!(score_touch_device("\"fts_ts\"") > 0);
}

#[test]
fn selects_the_touchscreen_device() {
    let output = "add device 1: /dev/input/event0\n  name:     \"gpio-keys\"\n  events:\n    KEY (0001): 0072\nadd device 2: /dev/input/event2\n  name:     \"fts_touchscreen\"\n  events:\n    ABS (0003): 0035  : value 0\n                0036  : value 0\n";
    assert_eq!(select_touch_device(output), Ok("/dev/input/event2".to_string()));
}

#[test]
fn no_touch_device_is_an_error() {
    let output = "add device 1: /dev/input/event0\n  name:     \"gpio-keys\"\n";
    assert_eq!(
        select_touch_device(output),
        Err("No touch-capable input devices found".to_string())
    );
}

// ------------------------------------------------------------------
// `adb devices -l`
// ------------------------------------------------------------------

const TWO_DEVICES: &str = "List of devices attached\n1d36d8f1               device usb:1-4 product:OnePlus6 model:ONEPLUS_A6000 device:OnePlus6 transport_id:2\noneplus6:5555          device product:OnePlus6 model:ONEPLUS_A6000 device:OnePlus6 transport_id:3\n";

fn two_devices() -> Vec<Device> {
    vec![
        Device { name: "1d36d8f1".to_string(), transport_id: Some("2".to_string()) },
        Device { name: "oneplus6:5555".to_string(), transport_id: Some("3".to_string()) },
    ]
}

#[test]
fn adb_test_parse_devices_multiple() {
    assert_eq!(parse_devices(TWO_DEVICES), two_devices());
}

#[test]
fn adb_test_parse_devices_single() {
    let adb_output = "List of devices attached\n1d36d8f1               device usb:1-4 product:OnePlus6 model:ONEPLUS_A6000 device:OnePlus6 transport_id:2\n";
    assert_eq!(
        parse_devices(adb_output),
        vec![Device { name: "1d36d8f1".to_string(), transport_id: Some("2".to_string()) }]
    );
}

#[test]
fn adb_test_list_devices_mock() {
    assert_eq!(parse_devices(TWO_DEVICES), two_devices());
}

#[test]
fn shell_parse_devices_basic() {
    let adb_output = "List of devices attached\nabc123 device transport_id:5\n";
    let devs = parse_devices(adb_output);
    assert_eq!(devs.len(), 1);
    assert_eq!(devs[0].name, "abc123");
    assert_eq!(devs[0].transport_id, Some("5".to_string()));
}

#[test]
fn shell_test_parse_devices_multiple() {
    assert_eq!(parse_devices(TWO_DEVICES), two_devices());
}

#[test]
fn shell_test_parse_devices_single() {
    let adb_output = "List of devices attached\n1d36d8f1               device usb:1-4 product:OnePlus6 model:ONEPLUS_A6000 device:OnePlus6 transport_id:2\n";
    assert_eq!(
        parse_devices(adb_output),
        vec![Device { name: "1d36d8f1".to_string(), transport_id: Some("2".to_string()) }]
    );
}

#[test]
fn shell_test_list_devices_mock() {
    assert_eq!(parse_devices(TWO_DEVICES), two_devices());
}

#[test]
fn adb_shell_parse_devices_basic() {
    let adb_output = "List of devices attached\nabc123 device transport_id:5\n";
    let devs = parse_devices(adb_output);
    assert_eq!(devs.len(), 1);
    assert_eq!(devs[0].name, "abc123");
    assert_eq!(devs[0].transport_id, Some("5".to_string()));
}

#[test]
fn offline_and_unauthorized_devices_are_skipped() {
    let out = "List of devices attached\nA offline\nB unauthorized usb:1\nC device\n\n";
    assert_eq!(parse_devices(out), vec![Device { name: "C".to_string(), transport_id: None }]);
    assert_eq!(parse_devices(""), Vec::<Device>::new());
}

#[test]
fn prefix_is_stripped_repeatedly() {
    let s: Vec<char> = "abababc".chars().collect();
    let p: Vec<char> = "ab".chars().collect();
    assert_eq!(trim_start_matches(&s, &p), vec!['c']);
}

// ------------------------------------------------------------------
// `ip route`, connection checks
// ------------------------------------------------------------------

#[test]
fn reads_device_ip_from_route() {
    let out = "default via 192.168.1.1 dev wlan0\n192.168.1.0/24 dev wlan0 proto kernel scope link src 192.168.1.42\n";
    assert_eq!(parse_ip_route(out), Ok("192.168.1.42".to_string()));
}

#[test]
fn missing_ip_is_an_error() {
    assert_eq!(
        parse_ip_route("default via 10.0.0.1 dev eth0\n"),
        Err("No valid IP address found in routing table".to_string())
    );
}

#[test]
fn ipv4_shape() {
    let ok: Vec<char> = "10.0.0.7".chars().collect();
    let bad: Vec<char> = "link".chars().collect();
    assert!(looks_like_ipv4(&ok));
    assert!(!looks_like_ipv4(&bad));
}

#[test]
fn echo_check() {
    assert!(auth_echo_ok("test\n"));
    assert!(auth_echo_ok("  test "));
    assert!(!auth_echo_ok("error: unauthorized"));
}

#[test]
fn desync_messages() {
    assert!(framebuffer_error_is_desync("wrong command CLSE"));
    assert!(framebuffer_error_is_desync("no write endpoint"));
    assert!(!framebuffer_error_is_desync("timeout"));
}

// ------------------------------------------------------------------
// Framebuffers
// ------------------------------------------------------------------

#[test]
fn test_detect_framebuffer_format() {
    let rgba_data = vec![0u8; 1080 * 2400 * 4];
    assert_eq!(detect_bytes_per_pixel(1080, 2400, rgba_data.len()), Some(4));

    let rgb_data = vec![0u8; 1080 * 2400 * 3];
    assert_eq!(detect_bytes_per_pixel(1080, 2400, rgb_data.len()), Some(3));

    let rgb565_data = vec![0u8; 1080 * 2400 * 2];
    assert_eq!(detect_bytes_per_pixel(1080, 2400, rgb565_data.len()), Some(2));

    let invalid_data = vec![0u8; 1000];
    assert_eq!(detect_bytes_per_pixel(1080, 2400, invalid_data.len()), None);
}

#[test]
fn pixel_count_does_not_overflow() {
    assert_eq!(pixel_count_of(u32::MAX, 2), (u32::MAX as u64) * 2);
}

#[test]
fn plans_for_each_kind_of_data() {
    let png = vec![0x89, 0x50, 0x4E, 0x47, 0x0D, 0x0A, 0x1A, 0x0A, 1, 2];
    assert_eq!(plan_usb(&png, 10, 10), FramePlan::AlreadyPng);
    let jpeg = vec![0xFF, 0xD8, 0, 0];
    assert_eq!(plan_usb(&jpeg, 10, 10), FramePlan::Jpeg);
    assert_eq!(
        plan_usb(&[1, 2, 3], 10, 10),
        FramePlan::Fail(FramebufferError::CompressedOrUnsupported { data_len: 3, pixel_count: 100 })
    );
    assert_eq!(
        plan_usb(&vec![0u8; 150], 10, 10),
        FramePlan::Fail(FramebufferError::TooSmallForRaw { data_len: 150, pixel_count: 100 })
    );
    assert_eq!(
        plan_usb(&vec![0u8; 300], 10, 10),
        FramePlan::Fail(FramebufferError::UnsupportedBytesPerPixel { bytes_per_pixel: 0 })
    );
    assert_eq!(plan_usb(&vec![0u8; 412], 10, 10), FramePlan::Raw { offset: 0, bytes_per_pixel: 4 });
    assert_eq!(plan_server(&vec![0u8; 412], 10, 10), FramePlan::Raw { offset: 12, bytes_per_pixel: 4 });
    assert_eq!(plan_server(&vec![0u8; 316], 10, 10), FramePlan::Raw { offset: 16, bytes_per_pixel: 3 });
    assert_eq!(plan_server(&vec![0u8; 220], 10, 10), FramePlan::Raw { offset: 20, bytes_per_pixel: 2 });
}

#[test]
fn rgb565_expands_to_rgb() {
    // White, black, pure red, pure green, pure blue (little-endian words).
    let d = vec![0xFF, 0xFF, 0x00, 0x00, 0x00, 0xF8, 0xE0, 0x07, 0x1F, 0x00];
    assert_eq!(
        rgb565_to_rgb(&d),
        vec![255, 255, 255, 0, 0, 0, 255, 0, 0, 0, 255, 0, 0, 0, 255]
    );
}

#[test]
fn png_data_passes_through() {
    let png = vec![0x89, 0x50, 0x4E, 0x47, 0x0D, 0x0A, 0x1A, 0x0A, 9, 9];
    assert_eq!(framebuffer_to_png_usb(png.clone(), 10, 10), Ok(png.clone()));
    assert_eq!(framebuffer_to_png_server(png.clone(), 10, 10), Ok(png));
}

#[test]
fn raw_rgba_becomes_a_png() {
    let data = vec![128u8; 2 * 2 * 4];
    let png = framebuffer_to_png_usb(data.clone(), 2, 2).unwrap();
    assert_ne!(png, data);
    assert_eq!(&png[0..8], &[0x89, 0x50, 0x4E, 0x47, 0x0D, 0x0A, 0x1A, 0x0A]);
}

#[test]
fn raw_rgb565_becomes_a_png() {
    let mut data = vec![0u8; 2];
    data.extend(vec![0xFFu8; 2 * 2 * 2]);
    assert_eq!(plan_server(&data, 2, 2), FramePlan::Raw { offset: 2, bytes_per_pixel: 2 });
    let png = framebuffer_to_png_server(data, 2, 2).unwrap();
    assert_eq!(&png[0..8], &[0x89, 0x50, 0x4E, 0x47, 0x0D, 0x0A, 0x1A, 0x0A]);
}

#[test]
fn broken_jpeg_is_a_jpeg_error() {
    let r = jpeg_to_png(&[0xFF, 0xD8, 0x00]);
    match r {
        Err(FramebufferError::Jpeg(m)) => assert!(m.starts_with("Failed to decode JPEG: "), "{}", m),
        other => panic!("unexpected {:?}", other),
    }
    let r = framebuffer_to_png_usb(vec![0xFF, 0xD8, 0x00], 10, 10);
    assert!(matches!(r, Err(FramebufferError::Jpeg(_))));
}

#[test]
fn framebuffer_error_messages() {
    let short = FramebufferError::CompressedOrUnsupported { data_len: 7, pixel_count: 100 };
    assert_eq!(
        short.message(),
        "Data appears to be compressed or in unsupported format: 7 bytes for 100 pixels"
    );
    assert_eq!(
        short.server_message(),
        "Framebuffer data appears to be compressed or in unsupported format: 7 bytes for 100 pixels"
    );
    let small = FramebufferError::TooSmallForRaw { data_len: 150, pixel_count: 100 };
    assert_eq!(
        small.message(),
        "Data too small for raw format: 150 bytes for 100 pixels (minimum 200 for RGB565)"
    );
    assert_eq!(
        small.server_message(),
        "Framebuffer data too small for raw format: 150 bytes for 100 pixels (minimum 200 bytes for RGB565)"
    );
    let huge = FramebufferError::TooSmallForRaw { data_len: 0, pixel_count: u64::MAX };
    assert_eq!(
        huge.message(),
        "Data too small for raw format: 0 bytes for 18446744073709551615 pixels (minimum 36893488147419103230 for RGB565)"
    );
    let bpp = FramebufferError::UnsupportedBytesPerPixel { bytes_per_pixel: 0 };
    assert_eq!(bpp.message(), "Unsupported framebuffer format: 0 bytes per pixel");
    assert_eq!(bpp.server_message(), bpp.message());
    let codec = FramebufferError::Codec("Failed to encode RGBA PNG: x".to_string());
    assert_eq!(codec.message(), "Failed to encode RGBA PNG: x");
    assert_eq!(codec.server_message(), "Failed to encode RGBA PNG: x");
    let jpeg = FramebufferError::Jpeg("Failed to decode JPEG: y".to_string());
    assert_eq!(jpeg.message(), "Failed to decode JPEG: y");
}

#[test]
fn usb_refusals_carry_their_messages() {
    let e = framebuffer_to_png_usb(vec![1u8; 150], 10, 10).unwrap_err();
    assert_eq!(e, FramebufferError::TooSmallForRaw { data_len: 150, pixel_count: 100 });
    assert_eq!(
        e.message(),
        "Data too small for raw format: 150 bytes for 100 pixels (minimum 200 for RGB565)"
    );
    let e = framebuffer_to_png_usb(vec![1u8; 250], 10, 10).unwrap_err();
    assert_eq!(e.message(), "Unsupported framebuffer format: 0 bytes per pixel");
}

#[test]
fn jpeg_is_reencoded_as_png() {
    let mut img = image::RgbImage::new(2, 2);
    img.put_pixel(0, 0, image::Rgb([200, 10, 10]));
    let mut jpeg: Vec<u8> = Vec::new();
    image::DynamicImage::ImageRgb8(img)
        .write_to(&mut std::io::Cursor::new(&mut jpeg), image::ImageFormat::Jpeg)
        .unwrap();
    let png = jpeg_to_png(&jpeg).unwrap();
    assert_eq!(&png[0..8], &[0x89, 0x50, 0x4E, 0x47, 0x0D, 0x0A, 0x1A, 0x0A]);
    assert_eq!(framebuffer_to_png_usb(jpeg.clone(), 100, 100), Ok(png));
}

#[test]
fn test_platform_specific_path_handling() {
    let device_name = "emulator-5554";
    let normalized = device_name.replace('\\', "/");
    assert_eq!(normalized, device_name);
}

// ------------------------------------------------------------------
// Shell commands
// ------------------------------------------------------------------

#[test]
fn tap_and_swipe_commands() {
    assert_eq!(tap_command(350, 628), vec!["input", "tap", "350", "628"]);
    assert_eq!(
        swipe_command(1, 2, 300, 4000, None),
        vec!["input", "swipe", "1", "2", "300", "4000", "300"]
    );
    assert_eq!(
        swipe_command(0, 0, 10, 10, Some(1250)),
        vec!["input", "swipe", "0", "0", "10", "10", "1250"]
    );
}

#[test]
fn touch_poll_command_and_answer() {
    assert_eq!(
        touch_poll_command("/dev/input/event2"),
        vec!["timeout", "0.3", "getevent", "-c", "1", "/dev/input/event2"]
    );
    assert!(touch_detected("/dev/input/event2: 0003 0035 000001a4\n"));
    assert!(!touch_detected(" \n\t"));
    assert!(!touch_detected(""));
}

#[test]
fn plain_scan_takes_the_last_touch_device() {
    let output = "add device 1: /dev/input/event1\n  0035 0036\nadd device 2: /dev/input/event4\n  KEY\nadd device 3: /dev/input/event6\n    0036  : value 0\n";
    assert_eq!(find_touch_device_plain(output), Some("/dev/input/event6".to_string()));
    let first_only = "add device 1: /dev/input/event1\n  0035\nadd device 2: /dev/input/event4\n";
    assert_eq!(find_touch_device_plain(first_only), Some("/dev/input/event1".to_string()));
    assert_eq!(find_touch_device_plain("add device 1: /dev/input/event1\n"), None);
}

#[test]
fn touch_monitor_steps() {
    let mut state = TouchActivityState::new_with_duration(1_000);
    assert!(!state.before_poll(0), "No polling while monitoring is off");
    assert!(state.start_monitoring());
    assert!(!state.start_monitoring(), "Already monitoring");
    assert!(state.before_poll(10));
    state.after_poll(20, true);
    assert_eq!(state.last_touch_time, Some(20));
    state.after_poll(30, false);
    assert_eq!(state.last_touch_time, Some(20));
    assert!(state.before_poll(500));
    assert_eq!(state.last_touch_time, Some(20));
    assert!(state.before_poll(1_020));
    assert_eq!(state.last_touch_time, None, "Expired touch is forgotten");
    state.stop_monitoring();
    assert!(!state.is_monitoring);
}

#[test]
fn rgb565_widening_keeps_order() {
    let mut last = 0u8;
    for r5 in 0u16..32 {
        let word = r5 << 11;
        let rgb = rgb565_to_rgb(&[(word & 0xFF) as u8, (word >> 8) as u8]);
        assert!(rgb[0] >= last);
        last = rgb[0];
    }
    assert_eq!(last, 255);
}

fn png_as_image_crate_writes_it(jpeg: &[u8]) -> Vec<u8> {
    let img = image::load_from_memory_with_format(jpeg, image::ImageFormat::Jpeg).unwrap();
    let mut out: Vec<u8> = Vec::new();
    img.write_with_encoder(image::codecs::png::PngEncoder::new(&mut out)).unwrap();
    out
}

fn jpeg_of(img: image::DynamicImage) -> Vec<u8> {
    let mut jpeg: Vec<u8> = Vec::new();
    img.write_to(&mut std::io::Cursor::new(&mut jpeg), image::ImageFormat::Jpeg).unwrap();
    jpeg
}

#[test]
fn jpeg_png_keeps_the_decoded_colour_layout() {
    let mut grey = image::GrayImage::new(3, 2);
    grey.put_pixel(1, 1, image::Luma([200]));
    let grey_jpeg = jpeg_of(image::DynamicImage::ImageLuma8(grey));
    assert_eq!(jpeg_to_png(&grey_jpeg).unwrap(), png_as_image_crate_writes_it(&grey_jpeg));

    let mut rgb = image::RgbImage::new(4, 3);
    rgb.put_pixel(2, 1, image::Rgb([10, 200, 30]));
    let rgb_jpeg = jpeg_of(image::DynamicImage::ImageRgb8(rgb));
    assert_eq!(jpeg_to_png(&rgb_jpeg).unwrap(), png_as_image_crate_writes_it(&rgb_jpeg));
    assert_eq!(framebuffer_to_png_server(rgb_jpeg.clone(), 1000, 1000).unwrap(), png_as_image_crate_writes_it(&rgb_jpeg));
}

#[test]
fn raw_pixels_of_each_depth_become_pngs() {
    for k in [4usize, 3, 2] {
        let data = vec![0u8; 6 * 4 * k];
        let png = framebuffer_to_png_server(data, 6, 4).unwrap();
        let img = image::load_from_memory(&png).unwrap();
        assert_eq!((img.width(), img.height()), (6, 4));
    }
    assert!(framebuffer_to_png_server(vec![0u8; 10], 6, 4).is_err());
}
