use mlx_serial::{
    command_outcome, decimal_text, not_connected, split_lines, PortInfo, PortKind, SerialState,
};

fn lines_of(state: &mut SerialState<()>, bytes: &[u8]) -> Vec<String> {
    state.take_lines(&bytes.to_vec()).lines
}

fn connected_state() -> SerialState<()> {
    let mut state: SerialState<()> = SerialState::new();
    state.close_port();
    let r = state.connect_outcome("COM3", 9600, Ok(()));
    assert!(r.success);
    state
}

#[test]
fn split_lines_strips_endings_and_drops_empty_lines() {
    let (lines, rest) = split_lines(&b"AB\r\nCD\n\nEF".to_vec());
    assert_eq!(lines, vec![b"AB".to_vec(), b"CD".to_vec()]);
    assert_eq!(rest, b"EF".to_vec());
}

#[test]
fn split_lines_without_line_feed_keeps_everything() {
    let (lines, rest) = split_lines(&b"partial\r".to_vec());
    assert!(lines.is_empty());
    assert_eq!(rest, b"partial\r".to_vec());
}

#[test]
fn split_lines_strips_every_trailing_carriage_return() {
    let (lines, rest) = split_lines(&b"A\r\r\n\r\n".to_vec());
    assert_eq!(lines, vec![b"A".to_vec()]);
    assert!(rest.is_empty());
}

#[test]
fn lines_arrive_across_reads() {
    let mut state = connected_state();
    assert!(lines_of(&mut state, b"AB\r").is_empty());
    assert_eq!(lines_of(&mut state, b"\nCD\n\nEF"), vec!["AB".to_string(), "CD".to_string()]);
    assert!(lines_of(&mut state, b"").is_empty());
    assert_eq!(lines_of(&mut state, b"\n"), vec!["EF".to_string()]);
}

#[test]
fn lines_in_one_read() {
    let mut state = connected_state();
    assert_eq!(
        lines_of(&mut state, b"AB\r\nCD\n\nEF"),
        vec!["AB".to_string(), "CD".to_string()]
    );
    assert_eq!(lines_of(&mut state, b"GH\n"), vec!["EFGH".to_string()]);
}

#[test]
fn invalid_utf8_is_replaced() {
    let mut state = connected_state();
    assert_eq!(lines_of(&mut state, &[0xFF, b'A', b'\n']), vec!["\u{FFFD}A".to_string()]);
}

#[test]
fn read_without_channel_takes_nothing() {
    let mut state: SerialState<()> = SerialState::new();
    assert!(lines_of(&mut state, b"X\nY\n").is_empty());
    state.close_port();
    state.connect_outcome("COM3", 9600, Ok(()));
    assert_eq!(lines_of(&mut state, b"Z\n"), vec!["Z".to_string()]);
}

#[test]
fn disconnect_drops_channel_and_buffer() {
    let mut state = connected_state();
    assert!(lines_of(&mut state, b"half").is_empty());
    let r = state.disconnect();
    assert!(r.success);
    assert_eq!(r.message, "Disconnected");
    assert!(!state.is_connected());
    assert!(state.port_mut().is_none());
    assert!(lines_of(&mut state, b" line\n").is_empty());
    state.close_port();
    state.connect_outcome("COM3", 9600, Ok(()));
    assert_eq!(lines_of(&mut state, b"next\n"), vec!["next".to_string()]);
}

#[test]
fn connect_reports_port_and_baud() {
    let mut state: SerialState<()> = SerialState::new();
    assert!(!state.is_connected());
    state.close_port();
    let r = state.connect_outcome("/dev/ttyUSB0", 115200, Ok(()));
    assert!(r.success);
    assert_eq!(r.message, "Connected to /dev/ttyUSB0 @ 115200");
    assert!(state.is_connected());
    assert!(state.port_mut().is_some());
}

#[test]
fn connect_clears_buffer() {
    let mut state = connected_state();
    assert!(lines_of(&mut state, b"stale").is_empty());
    state.close_port();
    state.connect_outcome("COM4", 9600, Ok(()));
    assert_eq!(lines_of(&mut state, b"fresh\n"), vec!["fresh".to_string()]);
}

#[test]
fn failed_connect_leaves_no_channel() {
    let mut state = connected_state();
    state.close_port();
    assert!(!state.is_connected());
    let r = state.connect_outcome("COM9", 9600, Err("No such file or directory".to_string()));
    assert!(!r.success);
    assert_eq!(r.message, "Failed to connect: No such file or directory");
    assert!(!state.is_connected());
}

#[test]
fn command_needs_a_channel() {
    let state: SerialState<()> = SerialState::new();
    let r = state.begin_command("W").unwrap_err();
    assert!(!r.success);
    assert_eq!(r.message, "Not connected");
    let state = connected_state();
    assert_eq!(state.begin_command("W").unwrap(), b"W".to_vec());
}

#[test]
fn command_outcome_messages() {
    let r = command_outcome("R", Ok(1));
    assert!(r.success);
    assert_eq!(r.message, "Sent: R");
    let r = command_outcome("R", Err("timed out".to_string()));
    assert!(!r.success);
    assert_eq!(r.message, "Write failed: timed out");
    let r = not_connected();
    assert!(!r.success);
    assert_eq!(r.message, "Not connected");
}

#[test]
fn decimal_text_values() {
    assert_eq!(decimal_text(0), "0");
    assert_eq!(decimal_text(9600), "9600");
    assert_eq!(decimal_text(4294967295), "4294967295");
}

#[test]
fn port_description() {
    let p = PortInfo::new("/dev/ttyUSB0".to_string(), PortKind::Usb(Some("CP2102".to_string())));
    assert_eq!(p.name, "/dev/ttyUSB0");
    assert_eq!(p.description, "CP2102");
    let p = PortInfo::new("/dev/ttyUSB1".to_string(), PortKind::Usb(None));
    assert_eq!(p.description, "");
    let p = PortInfo::new("/dev/ttyS0".to_string(), PortKind::Other);
    assert_eq!(p.description, "");
}
