use pake::codec::{decode_state, encode_state, load_state};
use pake::state::WindowState;

fn sample() -> WindowState {
    WindowState {
        width: 800,
        height: 600,
        x: 100,
        y: 50,
        maximized: false,
        visible: true,
        decorated: true,
        fullscreen: false,
    }
}

#[test]
fn encode_exact_bytes() {
    let bytes = encode_state(&sample());
    let expected = "{\"width\":800,\"height\":600,\"x\":100,\"y\":50,\"maximized\":false,\"visible\":true,\"decorated\":true,\"fullscreen\":false}";
    assert_eq!(bytes, expected.as_bytes().to_vec());
}

#[test]
fn round_trip_basic() {
    let st = sample();
    let bytes = encode_state(&st);
    let back = decode_state(&bytes).expect("canonical bytes must parse");
    assert_eq!(back, st);
}

#[test]
fn round_trip_negative_and_extreme() {
    let st = WindowState {
        width: u32::MAX,
        height: 1,
        x: i32::MIN,
        y: -1,
        maximized: true,
        visible: false,
        decorated: false,
        fullscreen: true,
    };
    let bytes = encode_state(&st);
    let back = decode_state(&bytes).expect("canonical bytes must parse");
    assert_eq!(back, st);
}

#[test]
fn round_trip_zeroed() {
    let st = WindowState::default();
    let bytes = encode_state(&st);
    assert_eq!(decode_state(&bytes).unwrap(), st);
}

#[test]
fn decode_rejects_garbage() {
    let bytes = b"not a record at all".to_vec();
    assert!(decode_state(&bytes).is_err());
}

#[test]
fn decode_rejects_empty() {
    let bytes: Vec<u8> = Vec::new();
    assert!(decode_state(&bytes).is_err());
}

#[test]
fn decode_rejects_trailing_bytes() {
    let mut bytes = encode_state(&sample());
    bytes.push(b' ');
    assert!(decode_state(&bytes).is_err());
}

#[test]
fn decode_rejects_truncated() {
    let mut bytes = encode_state(&sample());
    bytes.pop();
    assert!(decode_state(&bytes).is_err());
}

#[test]
fn decode_rejects_out_of_range_number() {
    let text = "{\"width\":4294967296,\"height\":600,\"x\":100,\"y\":50,\"maximized\":false,\"visible\":true,\"decorated\":true,\"fullscreen\":false}";
    assert!(decode_state(&text.as_bytes().to_vec()).is_err());
}

#[test]
fn load_absent_is_no_state() {
    let r = load_state(&None).expect("absence is not an error");
    assert!(r.is_none());
}

#[test]
fn load_present_parses() {
    let st = sample();
    let r = load_state(&Some(encode_state(&st))).expect("present bytes parse");
    assert_eq!(r, Some(st));
}

#[test]
fn load_corrupt_is_error_not_absence() {
    let r = load_state(&Some(b"{\"width\":oops".to_vec()));
    assert!(r.is_err());
}
