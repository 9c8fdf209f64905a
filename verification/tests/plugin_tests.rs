use spike_rs::bridge::bridge_alloc;
use spike_rs::bridge::bridge_dealloc;
use spike_rs::bridge::bridge_load;
use spike_rs::bridge::bridge_store;
use spike_rs::bridge::make_c_name;
use spike_rs::plugin::Plugin;
use spike_rs::ram::RamPlugin;
use spike_rs::ram::RAM_SIZE;
use spike_rs::uart::parse_hex_u32;
use spike_rs::uart::UartPlugin;

fn load_bytes<T: Plugin>(p: &mut T, offset: u64, len: usize) -> (Vec<u8>, bool) {
    let mut buf = vec![0u8; len];
    let ok = bridge_load(p, offset, &mut buf);
    (buf, ok)
}

#[test]
fn uart_seeds_from_hex_argument() {
    let mut u = UartPlugin::new("2a");
    let (buf, ok) = load_bytes(&mut u, 0, 4);
    assert!(ok);
    assert_eq!(buf, vec![0x2a, 0x00, 0x00, 0x00]);
}

#[test]
fn parse_hex_accepts_what_the_device_documents() {
    assert_eq!(parse_hex_u32("0"), Some(0));
    assert_eq!(parse_hex_u32("2a"), Some(42));
    assert_eq!(parse_hex_u32("+2a"), Some(42));
    assert_eq!(parse_hex_u32("FF"), Some(255));
    assert_eq!(parse_hex_u32("ff"), Some(255));
    assert_eq!(parse_hex_u32("DeadBeef"), Some(0xdead_beef));
    assert_eq!(parse_hex_u32("ffffffff"), Some(u32::MAX));
    assert_eq!(parse_hex_u32("0ffffffff"), Some(u32::MAX));
    assert_eq!(parse_hex_u32("00000000002a"), Some(42));
}

#[test]
fn parse_hex_rejects_what_the_device_documents() {
    assert_eq!(parse_hex_u32(""), None);
    assert_eq!(parse_hex_u32("+"), None);
    assert_eq!(parse_hex_u32("-1"), None);
    assert_eq!(parse_hex_u32("zz"), None);
    assert_eq!(parse_hex_u32("2a "), None);
    assert_eq!(parse_hex_u32("0x2a"), None);
    assert_eq!(parse_hex_u32("100000000"), None);
    assert_eq!(parse_hex_u32("ффф"), None);
}

#[test]
fn parse_matches_std_from_str_radix() {
    for s in [
        "", "+", "0", "2a", "+2a", "FF", "ff", "zz", "ffffffff", "0ffffffff", "100000000",
        "DeadBeef", "-1", "0x2a", " 2a", "2a ", "ффф", "+ffffffff",
    ] {
        assert_eq!(parse_hex_u32(s), u32::from_str_radix(s, 16).ok(), "input {s:?}");
    }
}

#[test]
fn uart_falls_back_on_invalid_argument() {
    let mut u = UartPlugin::new("not hex");
    let (buf, ok) = load_bytes(&mut u, 0, 4);
    assert!(ok);
    assert_eq!(buf, vec![0xab, 0xab, 0x00, 0x00]);
}

#[test]
fn uart_scenario_counter_device() {
    // The "dev0" device: a 4-byte little-endian counter seeded from "2a".
    let name = make_c_name(b"dev0").expect("name has no nul byte");
    assert_eq!(name, b"dev0\0");

    let mut u: UartPlugin = bridge_alloc(b"2a");
    let (buf, ok) = load_bytes(&mut u, 0, 4);
    assert!(ok);
    assert_eq!(buf, vec![0x2a, 0x00, 0x00, 0x00]);
    let (buf, ok) = load_bytes(&mut u, 4096, 4);
    assert!(ok, "any offset answers");
    assert_eq!(buf, vec![0x2a, 0x00, 0x00, 0x00]);

    // This device ignores stores: the counter keeps its seeded value.
    let ok = bridge_store(&mut u, 0, &[0x00, 0x00, 0x00, 0x00]);
    assert!(ok);
    let (buf, ok) = load_bytes(&mut u, 0, 4);
    assert!(ok);
    assert_eq!(buf, vec![0x2a, 0x00, 0x00, 0x00]);
}

#[test]
fn construction_with_invalid_encoding_still_answers() {
    let mut u: UartPlugin = bridge_alloc(&[0xff, 0xfe, 0x2a]);
    let (buf, ok) = load_bytes(&mut u, 0, 4);
    assert!(ok);
    assert_eq!(buf, vec![0xab, 0xab, 0x00, 0x00]);
    assert!(bridge_store(&mut u, 8, &[1, 2]));
}

#[test]
fn construct_then_drop_is_harmless() {
    for args in [&b""[..], b"2a", b"zz", b"\xff\xfe", b"ffffffff0"] {
        let u: UartPlugin = bridge_alloc(args);
        bridge_dealloc(u);
        let r: RamPlugin = bridge_alloc(args);
        bridge_dealloc(r);
    }
}

#[test]
fn ram_round_trips_stored_bytes() {
    let mut r = RamPlugin::new("");
    assert!(bridge_store(&mut r, 10, &[1, 2, 3]));
    let (buf, ok) = load_bytes(&mut r, 10, 3);
    assert!(ok);
    assert_eq!(buf, vec![1, 2, 3]);

    let data: Vec<u8> = (0..64).map(|i| (255 - i) as u8).collect();
    let off = (RAM_SIZE - 64) as u64;
    assert!(bridge_store(&mut r, off, &data));
    let (buf, ok) = load_bytes(&mut r, off, 64);
    assert!(ok);
    assert_eq!(buf, data);

    // Neighbouring bytes keep their values.
    let (buf, ok) = load_bytes(&mut r, 9, 5);
    assert!(ok);
    assert_eq!(buf, vec![0, 1, 2, 3, 0]);
}

#[test]
fn ram_starts_zeroed() {
    let mut r = RamPlugin::new("whatever");
    let (buf, ok) = load_bytes(&mut r, 0, 16);
    assert!(ok);
    assert_eq!(buf, vec![0u8; 16]);
}

#[test]
fn zero_length_accesses_are_defined_and_touch_nothing() {
    let mut r = RamPlugin::new("");
    assert!(bridge_store(&mut r, 3, &[7]));

    let (buf, ok) = load_bytes(&mut r, 0, 0);
    assert!(ok);
    assert_eq!(buf, Vec::<u8>::new());
    assert!(bridge_store(&mut r, 0, &[]));

    // The very end of the memory is still in range for an empty access...
    let (_, ok) = load_bytes(&mut r, RAM_SIZE as u64, 0);
    assert!(ok);
    assert!(bridge_store(&mut r, RAM_SIZE as u64, &[]));
    // ...but one past it is not.
    let (_, ok) = load_bytes(&mut r, RAM_SIZE as u64 + 1, 0);
    assert!(!ok);
    assert!(!bridge_store(&mut r, RAM_SIZE as u64 + 1, &[]));

    // The stored byte is untouched by all of the above.
    let (buf, ok) = load_bytes(&mut r, 3, 1);
    assert!(ok);
    assert_eq!(buf, vec![7]);
}

#[test]
fn ram_rejects_out_of_range_accesses() {
    let mut r = RamPlugin::new("");
    assert!(!bridge_store(&mut r, RAM_SIZE as u64, &[1]));
    assert!(!bridge_store(&mut r, (RAM_SIZE - 1) as u64, &[1, 2]));
    assert!(!bridge_store(&mut r, u64::MAX, &[1]));
    let (buf, ok) = load_bytes(&mut r, RAM_SIZE as u64, 1);
    assert!(!ok);
    assert_eq!(buf.len(), 1, "a failed load keeps the buffer's length");
    // The failed store at the boundary wrote nothing.
    let (buf, ok) = load_bytes(&mut r, (RAM_SIZE - 1) as u64, 1);
    assert!(ok);
    assert_eq!(buf, vec![0]);
}

#[test]
fn bridge_forwards_booleans_unchanged() {
    let mut r = RamPlugin::new("");
    assert!(bridge_store(&mut r, 0, &[9]));
    assert!(!bridge_store(&mut r, u64::MAX, &[9]));
    let (_, ok) = load_bytes(&mut r, 0, 1);
    assert!(ok);
    let (_, ok) = load_bytes(&mut r, u64::MAX, 1);
    assert!(!ok);
}

#[test]
fn name_termination() {
    assert_eq!(make_c_name(b"my_plugin"), Some(b"my_plugin\0".to_vec()));
    assert_eq!(make_c_name(b""), Some(b"\0".to_vec()));
    assert_eq!(make_c_name(b"a\0b"), None);
    assert_eq!(make_c_name(b"\0"), None);
}
