use monitor_manager::config::Config;
use monitor_manager::display::{
    disable_config, monitor_from_device, terminated_prefix, DISPLAY_DEVICE_ATTACHED_TO_DESKTOP,
    DISPLAY_DEVICE_PRIMARY_DEVICE,
};

/// A fixed-size wide-character buffer as the OS fills one: the text,
/// a terminator, and stale garbage after it.
fn wide_buffer(text: &str, garbage: &[u16], size: usize) -> Vec<u16> {
    let mut buf: Vec<u16> = text.encode_utf16().collect();
    buf.push(0);
    buf.extend_from_slice(garbage);
    while buf.len() < size {
        buf.push(0);
    }
    buf
}

#[test]
fn decode_stops_at_first_terminator() {
    let name = wide_buffer("\\\\.\\DISPLAY1", &[0x0041, 0x0042], 32);
    let desc = wide_buffer("Generic PnP Monitor", &[0x0058], 128);
    let flags = DISPLAY_DEVICE_ATTACHED_TO_DESKTOP | DISPLAY_DEVICE_PRIMARY_DEVICE;
    let m = monitor_from_device(&name, &desc, flags);
    // The garbage after the terminator never reaches the decoded strings.
    assert_eq!(m.device_name, "\\\\.\\DISPLAY1");
    assert_eq!(m.description, "Generic PnP Monitor");
    assert!(m.is_active);
    assert!(m.is_primary);
}

#[test]
fn decode_without_terminator_takes_whole_buffer() {
    let buf: Vec<u16> = "ABC".encode_utf16().collect();
    assert_eq!(terminated_prefix(&buf), buf);
}

#[test]
fn decode_empty_buffer() {
    let buf: Vec<u16> = vec![0, 0x0041];
    assert_eq!(terminated_prefix(&buf), Vec::<u16>::new());
}

#[test]
fn state_flags_decode_independently() {
    let name = wide_buffer("\\\\.\\DISPLAY2", &[], 32);
    let desc = wide_buffer("Second", &[], 128);
    let secondary = monitor_from_device(&name, &desc, DISPLAY_DEVICE_ATTACHED_TO_DESKTOP);
    assert!(secondary.is_active);
    assert!(!secondary.is_primary);
    let detached = monitor_from_device(&name, &desc, 0);
    assert!(!detached.is_active);
    assert!(!detached.is_primary);
    let primary_only = monitor_from_device(&name, &desc, DISPLAY_DEVICE_PRIMARY_DEVICE);
    assert!(!primary_only.is_active);
    assert!(primary_only.is_primary);
}

#[test]
fn disable_request_claims_no_resolution_or_position() {
    let c = disable_config();
    assert_eq!(c.width, 0);
    assert_eq!(c.height, 0);
    assert_eq!(c.position_x, 0);
    assert_eq!(c.position_y, 0);
}

#[test]
fn default_config_targets_the_stock_executable() {
    let c = Config::default();
    assert_eq!(c.target_exe, "C:\\Riot Games\\League of Legends\\Game\\League of Legends.exe");
}
