use jegal::amounts::SCALE;
use jegal::ibkr::{
    api_prefix, frame_length, frame_message, handle_incoming, next_valid_id, order_message, payload_fields,
    report_message, resolve_client_id, IbkrBroker, Incoming, ORDER_FIELD_COUNT,
};
use jegal::text::{join_fields, parse_i32, push_fixed_text, push_int_text, split_fields};

fn parts(v: &[&str]) -> Vec<String> {
    v.iter().map(|s| s.to_string()).collect()
}

#[test]
fn frame_has_big_endian_length_then_bytes() {
    let f = frame_message("v100..175").ok().unwrap();
    assert_eq!(&f[..4], &[0, 0, 0, 9]);
    assert_eq!(&f[4..], b"v100..175");
    assert_eq!(frame_length([f[0], f[1], f[2], f[3]]), 9);
    let long = "x".repeat(70000);
    let f = frame_message(&long).ok().unwrap();
    assert_eq!(&f[..4], &[0, 1, 0x11, 0x70]);
    assert_eq!(frame_length([0, 1, 0x11, 0x70]), 70000);
    // Lengths count bytes, not characters.
    let f = frame_message("é").ok().unwrap();
    assert_eq!(f, vec![0, 0, 0, 2, 0xc3, 0xa9]);
    assert_eq!(frame_length([1, 2, 3, 4]), 0x01020304);
}

#[test]
fn session_opens_with_api_prefix() {
    assert_eq!(api_prefix(), b"API\0".to_vec());
}

#[test]
fn payload_fields_split_at_nul() {
    assert_eq!(payload_fields(b"9\x001\x00"), parts(&["9", "1", ""]));
    assert_eq!(payload_fields(b""), parts(&[""]));
    assert_eq!(payload_fields(b"a\xffb"), parts(&["a\u{fffd}b"]));
    assert_eq!(split_fields("a,,b", ','), parts(&["a", "", "b"]));
    assert_eq!(join_fields(&parts(&["a", "", "b"]), ','), "a,,b");
}

#[test]
fn i32_parsing_follows_str_parse() {
    for s in ["0", "7", "+5", "-12", "007", "2147483647", "-2147483648", "", "-", "+", "2147483648", "-2147483649", "12a", " 1", "99999999999999"] {
        assert_eq!(parse_i32(s), s.parse::<i32>().ok(), "input {:?}", s);
    }
}

#[test]
fn decimal_text() {
    let mut s = String::new();
    push_int_text(&mut s, -120);
    push_int_text(&mut s, 0);
    push_int_text(&mut s, i64::MIN);
    assert_eq!(s, format!("-1200{}", i64::MIN));
    for (units, text) in [(1_500_000u64, "1.5"), (1_000_000, "1"), (2_500_123_000, "2500.123"), (1, "0.000001"), (0, "0"), (10_000_000, "10")] {
        let mut t = String::new();
        push_fixed_text(&mut t, units);
        assert_eq!(t, text);
        assert_eq!(t, (units as f64 / 1e6).to_string());
    }
}

#[test]
fn next_valid_id_messages() {
    assert_eq!(next_valid_id(&parts(&["9", "1", "42", ""])), Some(1));
    assert_eq!(next_valid_id(&parts(&["9", "42"])), Some(42));
    assert_eq!(next_valid_id(&parts(&["9", "x"])), None);
    assert_eq!(next_valid_id(&parts(&["9"])), None);
    assert_eq!(next_valid_id(&parts(&["4", "5"])), None);
    assert!(matches!(handle_incoming(&parts(&["9", "17", ""])), Incoming::SyncOrderId(17)));
    assert!(matches!(handle_incoming(&parts(&["9", "oops"])), Incoming::Ignore));
}

#[test]
fn received_messages_are_reported() {
    let p = parts(&["101", "x"]);
    assert_eq!(report_message(&p), (false, format!("IBKR: Received AccountUpdate: {:?}", p)));
    let p = parts(&["102"]);
    assert_eq!(report_message(&p), (false, format!("IBKR: Received OrderStatus: {:?}", p)));
    let p = parts(&["103"]);
    assert_eq!(report_message(&p), (false, format!("IBKR: Received OpenOrder: {:?}", p)));
    let p = parts(&["77", "a\"b"]);
    assert_eq!(report_message(&p), (false, format!("IBKR: Received message ID 77: {:?}", p)));
    assert_eq!(
        report_message(&parts(&["4", "2", "-1", "320", "bad"])),
        (true, "IBKR ERROR [320]: Error reading request. Protocol mismatch detected. Check message fields.".to_string())
    );
    assert_eq!(
        report_message(&parts(&["4", "2", "-1", "502"])).1,
        "IBKR ERROR [502]: Couldn't connect to TWS. Confirm that 'Enable ActiveX and Socket Clients' is enabled and the port is correct."
    );
    assert_eq!(
        report_message(&parts(&["4", "2", "-1", "504"])).1,
        "IBKR ERROR [504]: Not connected. Ensure Gateway/TWS is logged in."
    );
    assert_eq!(report_message(&parts(&["4", "2", "-1", "200", "No security"])), (true, "IBKR ERROR [200]: No security".to_string()));
    assert_eq!(report_message(&parts(&["4"])).1, "IBKR ERROR [Unknown]: No message");
    match handle_incoming(&parts(&["4", "2", "-1", "504"])) {
        Incoming::Log { to_stderr, text } => {
            assert!(to_stderr);
            assert!(text.starts_with("IBKR ERROR [504]"));
        }
        _ => panic!("expected a report"),
    }
}

#[test]
fn order_message_fields() {
    let m = order_message(7, "AAPL", 1_500_000);
    assert!(m.ends_with('\0'));
    let f: Vec<&str> = m.split('\0').collect();
    assert_eq!(f.len(), ORDER_FIELD_COUNT + 1);
    assert_eq!(
        &f[..28],
        &["3", "7", "0", "AAPL", "STK", "", "0", "", "", "SMART", "NASDAQ", "USD", "", "", "", "", "BUY", "1.5", "MKT", "", "", "DAY", "", "", "", "0", "", "1"]
    );
    assert!(f[28..].iter().all(|x| x.is_empty()));
    let m = order_message(8, "MSFT", -2 * SCALE);
    let f: Vec<&str> = m.split('\0').collect();
    assert_eq!((f[16], f[17]), ("SELL", "2"));
    let m = order_message(9, "X", 0);
    let f: Vec<&str> = m.split('\0').collect();
    assert_eq!((f[16], f[17]), ("SELL", "0"));
}

#[test]
fn orders_need_a_connection_and_take_ids_in_turn() {
    let mut b = IbkrBroker::new("127.0.0.1".to_string(), 7497, 1, None);
    assert_eq!(b.next_order_id, 1);
    assert_eq!(b.prepare_order("AAPL", SCALE).err().unwrap(), "No active connection");
    assert_eq!(b.next_order_id, 1);
    b.set_connected(true);
    let p = b.prepare_order("AAPL", SCALE).ok().unwrap();
    assert_eq!(p.order_id, 1);
    assert_eq!(p.reference, "IBKR-REQ-1");
    assert_eq!(p.message, order_message(1, "AAPL", SCALE));
    let p = b.prepare_order("AAPL", SCALE).ok().unwrap();
    assert_eq!(p.order_id, 2);
    b.set_next_order_id(100);
    assert_eq!(b.prepare_order("AAPL", SCALE).ok().unwrap().reference, "IBKR-REQ-100");
    assert_eq!(b.next_order_id, 101);
}

#[test]
fn session_settings_and_requests() {
    let b = IbkrBroker::new("127.0.0.1".to_string(), 7497, 12, Some("SECRET-REDACTED".to_string()));
    assert_eq!(b.client_id, 12);
    assert_eq!(b.address(), "127.0.0.1:7497");
    assert_eq!(b.start_api_message(), "71\u{0}2\u{0}12\u{0}\u{0}");
    assert!(b.api_token.is_some());
    assert_eq!(b.account_balance_request(), (None, 0));
    let mut b = IbkrBroker::new("h".to_string(), 1, 0, None);
    assert!(b.client_id >= 0 && b.client_id < 10000);
    b.set_connected(true);
    assert_eq!(b.account_balance_request(), (Some("6\u{0}1\u{0}\u{0}".to_string()), 0));
    let neg = IbkrBroker::new("h".to_string(), 1, -3, None);
    assert_eq!(neg.start_api_message(), format!("71\u{0}2\u{0}{}\u{0}\u{0}", neg.client_id));
}

#[test]
fn client_id_falls_back_to_clock() {
    assert_eq!(resolve_client_id(5, 123_456), 5);
    assert_eq!(resolve_client_id(0, 123_456), 3456);
    assert_eq!(resolve_client_id(-1, 10_000), 0);
}
