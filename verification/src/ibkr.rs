//! The Interactive Brokers TWS socket protocol: length-prefixed frames whose
//! payloads are NUL-separated text fields, the handshake and order messages
//! the broker sends, and what it does with the messages it receives.
//!
//! The socket itself is driven by the caller; this module decides what to
//! send and how to read what arrives.

use vstd::prelude::*;
use std::time::{Duration, SystemTime, SystemTimeError, UNIX_EPOCH};
use byteorder::{BigEndian, WriteBytesExt};
use vstd::utf8::encode_utf8;
use crate::amounts::abs;
use crate::secret::{credential_opt, credential_opt_text, Credential};
use crate::text::{
    free_of, law_split_join, lemma_fixed_text_free, lemma_int_text_free, law_int_text_reads_back,
    fixed_text, int_text, join_fields, join_with, nat_digits, parse_i32, parse_i32_text,
    push_fixed_text, push_int_text, push_nat_digits, split_fields, split_on, strings_view,
};

verus! {

#[verifier::external_type_specification]
#[verifier::external_body]
pub struct ExIoError(std::io::Error);

#[verifier::external_type_specification]
#[verifier::external_body]
pub struct ExSystemTime(SystemTime);

#[verifier::external_type_specification]
#[verifier::external_body]
pub struct ExSystemTimeError(SystemTimeError);

/// `std::time::SystemTime::now`: a reading of the system clock; nothing is stated of it.
#[verifier::external_body]
fn system_now() -> SystemTime {
    SystemTime::now()
}

/// `std::time::SystemTime::duration_since(UNIX_EPOCH)`: the time since 1970,
/// an error when the reading is earlier; nothing is stated of it.
#[verifier::external_body]
fn since_unix_epoch(t: &SystemTime) -> Result<Duration, SystemTimeError> {
    t.duration_since(UNIX_EPOCH)
}

/// `std::time::Duration::as_secs`: the whole seconds of a clock reading;
/// nothing is stated of it.
#[verifier::external_body]
fn whole_seconds(d: &Duration) -> u64 {
    d.as_secs()
}

/// The four bytes of `n`, most significant first.
pub open spec fn be_bytes(n: u32) -> Seq<u8> {
    seq![
        (n / 0x100_0000) as u8,
        ((n / 0x1_0000) % 0x100) as u8,
        ((n / 0x100) % 0x100) as u8,
        (n % 0x100) as u8,
    ]
}

/// The number that four bytes denote, most significant first.
pub open spec fn be_value(b: Seq<u8>) -> int {
    b[0] * 0x100_0000 + b[1] * 0x1_0000 + b[2] * 0x100 + b[3]
}

/// `byteorder::WriteBytesExt::write_u32::<BigEndian>` on a byte vector. The
/// source puts the four bytes of `n`, most significant first, in a buffer and
/// hands it to `write_all`, whose errors it returns. std documents `Write`
/// for `Vec<u8>` as appending to the vector, which grows as needed, so the
/// write succeeds and the four bytes stand appended.
#[verifier::external_body]
fn write_u32_be(buf: &mut Vec<u8>, n: u32) -> (r: Result<(), std::io::Error>)
    ensures
        r is Ok,
        final(buf)@ == old(buf)@ + be_bytes(n),
{
    WriteBytesExt::write_u32::<BigEndian>(buf, n)
}

/// The text of an I/O error (`ToString` on `std::io::Error`); nothing is stated of it.
#[verifier::external_body]
fn io_error_text(e: &std::io::Error) -> String {
    e.to_string()
}

/// What `String::from_utf8_lossy` makes of `bytes`.
pub uninterp spec fn utf8_lossy(bytes: Seq<u8>) -> Seq<char>;

/// `String::from_utf8_lossy`: decodes `bytes`, each invalid sequence turned
/// into U+FFFD; valid UTF-8 comes back as the text it encodes.
#[verifier::external_body]
fn decode_lossy(bytes: &[u8]) -> (r: String)
    ensures
        r@ == utf8_lossy(bytes@),
        forall|s: Seq<char>| #[trigger] encode_utf8(s) == bytes@ ==> r@ == s,
{
    String::from_utf8_lossy(bytes).into_owned()
}

/// What `format!("{:?}", ..)` makes of a list of strings.
pub uninterp spec fn debug_list_text(items: Seq<Seq<char>>) -> Seq<char>;

/// `format!("{:?}", items)`: the debug rendering of a list of strings.
#[verifier::external_body]
fn debug_list(items: &Vec<String>) -> (r: String)
    ensures
        r@ == debug_list_text(strings_view(items@)),
{
    format!("{:?}", items)
}

/// The bytes that open a session, before any frame: "API\0".
pub fn api_prefix() -> (r: Vec<u8>)
    ensures
        r@ == seq![0x41u8, 0x50u8, 0x49u8, 0u8],
{
    let mut v: Vec<u8> = Vec::new();
    v.push(0x41u8);
    v.push(0x50u8);
    v.push(0x49u8);
    v.push(0u8);
    v
}

/// The frame of a payload: its length in bytes (as a 32-bit number) in four
/// bytes, most significant first, then its UTF-8 bytes.
pub open spec fn frame_of(payload: Seq<char>) -> Seq<u8> {
    be_bytes(encode_utf8(payload).len() as u32) + encode_utf8(payload)
}

/// Frames `payload` for the socket: always succeeds with its frame.
pub fn frame_message(payload: &str) -> (r: Result<Vec<u8>, String>)
    ensures
        r matches Ok(f) && f@ == frame_of(payload@),
{
    let bytes = payload.as_bytes();
    let n = bytes.len();
    let mut message: Vec<u8> = Vec::new();
    #[verifier::truncate]
    let len: u32 = n as u32;
    match write_u32_be(&mut message, len) {
        Ok(()) => {},
        Err(e) => return Err(io_error_text(&e)),
    }
    let ghost head = message@;
    for i in 0..n
        invariant
            n == bytes@.len(),
            message@ == head + bytes@.take(i as int),
    {
        message.push(bytes[i]);
        assert(bytes@.take(i + 1) =~= bytes@.take(i as int).push(bytes@[i as int]));
    }
    assert(bytes@.take(n as int) =~= bytes@);
    Ok(message)
}

/// The payload length that a frame's four-byte header gives.
pub fn frame_length(header: [u8; 4]) -> (r: u32)
    ensures
        r == be_value(header@),
{
    let b0: u32 = header[0] as u32;
    let b1: u32 = header[1] as u32;
    let b2: u32 = header[2] as u32;
    let b3: u32 = header[3] as u32;
    b0 * 0x100_0000 + b1 * 0x1_0000 + b2 * 0x100 + b3
}

/// The text fields of a received payload: its bytes decoded (invalid UTF-8
/// replaced), split at every NUL.
pub fn payload_fields(payload: &[u8]) -> (r: Vec<String>)
    ensures
        strings_view(r@) == split_on(utf8_lossy(payload@), '\0'),
{
    let text = decode_lossy(payload);
    split_fields(text.as_str(), '\0')
}

/// The "StartApi" request (message 71, version 2) for a client id.
pub open spec fn start_api_text(client_id: int) -> Seq<char> {
    seq!['7', '1', '\0', '2', '\0'] + int_text(client_id) + seq!['\0', '\0']
}

/// The account-summary request (message 6, version 1).
pub open spec fn account_request_text() -> Seq<char> {
    seq!['6', '\0', '1', '\0', '\0']
}

/// The number of fields of an order message.
pub const ORDER_FIELD_COUNT: usize = 165;

/// The leading fields of a market order, all later fields being empty.
pub open spec fn order_head(id: Seq<char>, symbol: Seq<char>, action: Seq<char>, quantity: Seq<char>) -> Seq<
    Seq<char>,
> {
    let e = Seq::<char>::empty();
    seq![
        seq!['3'], id, seq!['0'], symbol, "STK"@, e, seq!['0'], e, e, "SMART"@, "NASDAQ"@, "USD"@,
        e, e, e, e, action, quantity, "MKT"@, e, e, "DAY"@, e, e, e, seq!['0'], e, seq!['1'],
    ]
}

/// The fields of the order message: the leading fields, padded with empty
/// fields to `ORDER_FIELD_COUNT`.
pub open spec fn order_fields(id: Seq<char>, symbol: Seq<char>, action: Seq<char>, quantity: Seq<char>) -> Seq<
    Seq<char>,
> {
    let head = order_head(id, symbol, action, quantity);
    Seq::new(
        ORDER_FIELD_COUNT as nat,
        |i: int| if i < head.len() { head[i] } else { Seq::<char>::empty() },
    )
}

/// "BUY" for a positive quantity, else "SELL".
pub open spec fn order_action(quantity: int) -> Seq<char> {
    if quantity > 0 {
        "BUY"@
    } else {
        "SELL"@
    }
}

/// The placeOrder message for `quantity` (in `SCALE` units) of `symbol` as
/// order `order_id`: a market order, the fields joined with NUL and closed by NUL.
pub open spec fn order_message_text(order_id: int, symbol: Seq<char>, quantity: int) -> Seq<char> {
    join_with(
        order_fields(
            int_text(order_id),
            symbol,
            order_action(quantity),
            fixed_text(abs(quantity) as nat),
        ),
        '\0',
    ).push('\0')
}

/// The order reference reported to the caller.
pub open spec fn order_reference_text(order_id: int) -> Seq<char> {
    "IBKR-REQ-"@ + int_text(order_id)
}

/// An order ready for the socket.
pub struct PreparedOrder {
    pub order_id: i32,
    /// The placeOrder payload, to be framed and sent.
    pub message: String,
    /// The reference returned once the order is sent.
    pub reference: String,
}

/// What to do with a message received on a running session.
pub enum Incoming {
    /// The broker gave the next valid order id.
    SyncOrderId(i32),
    /// Nothing to do.
    Ignore,
    /// Report the message, on the error stream when `to_stderr`.
    Log { to_stderr: bool, text: String },
}

/// The next valid order id in a "9" message, if the message is one and its
/// second field reads as an `i32`.
pub open spec fn next_valid_id_of(parts: Seq<Seq<char>>) -> Option<i32> {
    if parts.len() >= 2 && parts[0] == "9"@ {
        parse_i32_text(parts[1])
    } else {
        None
    }
}

/// The report of a received message other than "9": on the error stream or
/// not, and its text.
pub open spec fn report_of(parts: Seq<Seq<char>>) -> (bool, Seq<char>) {
    let id = parts[0];
    if id == "101"@ {
        (false, "IBKR: Received AccountUpdate: "@ + debug_list_text(parts))
    } else if id == "102"@ {
        (false, "IBKR: Received OrderStatus: "@ + debug_list_text(parts))
    } else if id == "103"@ {
        (false, "IBKR: Received OpenOrder: "@ + debug_list_text(parts))
    } else if id == "4"@ {
        let code = if parts.len() > 3 { parts[3] } else { "Unknown"@ };
        let msg = if parts.len() > 4 { parts[4] } else { "No message"@ };
        if code == "320"@ {
            (true, "IBKR ERROR [320]: Error reading request. Protocol mismatch detected. Check message fields."@)
        } else if code == "502"@ {
            (true, "IBKR ERROR [502]: Couldn't connect to TWS. Confirm that 'Enable ActiveX and Socket Clients' is enabled and the port is correct."@)
        } else if code == "504"@ {
            (true, "IBKR ERROR [504]: Not connected. Ensure Gateway/TWS is logged in."@)
        } else {
            (true, "IBKR ERROR ["@ + code + "]: "@ + msg)
        }
    } else {
        (false, "IBKR: Received message ID "@ + id + ": "@ + debug_list_text(parts))
    }
}

/// `s` holds the text `lit`.
fn text_is(s: &String, lit: &str) -> (r: bool)
    ensures
        r == (s@ == lit@),
{
    let t = String::from_str(lit);
    *s == t
}

/// The next valid order id that a message gives, if it is a "9" message
/// whose second field reads as an `i32`.
pub fn next_valid_id(parts: &Vec<String>) -> (r: Option<i32>)
    ensures
        r == next_valid_id_of(strings_view(parts@)),
{
    if parts.len() >= 2 && text_is(&parts[0], "9") {
        parse_i32(parts[1].as_str())
    } else {
        None
    }
}

/// The report of a received message other than "9".
pub fn report_message(parts: &Vec<String>) -> (r: (bool, String))
    requires
        parts@.len() >= 1,
    ensures
        (r.0, r.1@) == report_of(strings_view(parts@)),
{
    let id = &parts[0];
    if text_is(id, "101") {
        let mut s = String::from_str("IBKR: Received AccountUpdate: ");
        s.append(debug_list(parts).as_str());
        (false, s)
    } else if text_is(id, "102") {
        let mut s = String::from_str("IBKR: Received OrderStatus: ");
        s.append(debug_list(parts).as_str());
        (false, s)
    } else if text_is(id, "103") {
        let mut s = String::from_str("IBKR: Received OpenOrder: ");
        s.append(debug_list(parts).as_str());
        (false, s)
    } else if text_is(id, "4") {
        let code = if parts.len() > 3 { parts[3].clone() } else { String::from_str("Unknown") };
        let msg = if parts.len() > 4 { parts[4].clone() } else { String::from_str("No message") };
        if text_is(&code, "320") {
            (true, String::from_str("IBKR ERROR [320]: Error reading request. Protocol mismatch detected. Check message fields."))
        } else if text_is(&code, "502") {
            (true, String::from_str("IBKR ERROR [502]: Couldn't connect to TWS. Confirm that 'Enable ActiveX and Socket Clients' is enabled and the port is correct."))
        } else if text_is(&code, "504") {
            (true, String::from_str("IBKR ERROR [504]: Not connected. Ensure Gateway/TWS is logged in."))
        } else {
            let mut s = String::from_str("IBKR ERROR [");
            s.append(code.as_str());
            s.append("]: ");
            s.append(msg.as_str());
            (true, s)
        }
    } else {
        let mut s = String::from_str("IBKR: Received message ID ");
        s.append(id.as_str());
        s.append(": ");
        s.append(debug_list(parts).as_str());
        (false, s)
    }
}

/// What a running session does with a received message: a "9" message
/// syncs the next order id (or is passed over when its id does not read);
/// any other message is reported.
pub fn handle_incoming(parts: &Vec<String>) -> (r: Incoming)
    requires
        parts@.len() >= 1,
    ensures
        strings_view(parts@)[0] == "9"@ ==> match next_valid_id_of(strings_view(parts@)) {
            Some(id) => r == Incoming::SyncOrderId(id),
            None => r is Ignore,
        },
        strings_view(parts@)[0] != "9"@ ==> (r matches Incoming::Log { to_stderr, text } && (
        to_stderr, text@) == report_of(strings_view(parts@))),
{
    if text_is(&parts[0], "9") {
        match next_valid_id(parts) {
            Some(id) => Incoming::SyncOrderId(id),
            None => Incoming::Ignore,
        }
    } else {
        let (to_stderr, text) = report_message(parts);
        Incoming::Log { to_stderr, text }
    }
}

/// Settings and order-id state of a TWS session.
pub struct IbkrBroker {
    pub host: String,
    pub port: u32,
    pub client_id: i32,
    pub api_token: Option<Credential>,
    /// The id the next order will carry.
    pub next_order_id: i32,
    /// Whether a socket is open to the gateway.
    pub connected: bool,
}

/// The client id to use: the one given when positive, else the clock's
/// seconds since 1970 modulo 10000.
pub open spec fn client_id_for(client_id: i32, unix_seconds: u64) -> i32 {
    if client_id > 0 {
        client_id
    } else {
        (unix_seconds % 10000) as i32
    }
}

/// The client id to use, given the clock's seconds since 1970.
pub fn resolve_client_id(client_id: i32, unix_seconds: u64) -> (r: i32)
    ensures
        r == client_id_for(client_id, unix_seconds),
{
    if client_id > 0 {
        client_id
    } else {
        (unix_seconds % 10000) as i32
    }
}

impl IbkrBroker {
    /// A session to `host:port`, not yet connected. A client id that is not
    /// positive is replaced by the clock's seconds since 1970 modulo 10000
    /// (a clock reading before 1970 counts as zero seconds).
    pub fn new(host: String, port: u32, client_id: i32, api_token: Option<String>) -> (r: IbkrBroker)
        ensures
            r.host@ == host@,
            r.port == port,
            client_id > 0 ==> r.client_id == client_id,
            client_id <= 0 ==> 0 <= r.client_id < 10000,
            credential_opt_text(r.api_token) == match api_token {
                Some(x) => Some(x@),
                None => None::<Seq<char>>,
            },
            r.next_order_id == 1,
            !r.connected,
    {
        let id = if client_id > 0 {
            client_id
        } else {
            let now = system_now();
            let secs: u64 = match since_unix_epoch(&now) {
                Ok(d) => whole_seconds(&d),
                Err(_) => 0,
            };
            resolve_client_id(client_id, secs)
        };
        IbkrBroker {
            host,
            port,
            client_id: id,
            api_token: credential_opt(api_token),
            next_order_id: 1,
            connected: false,
        }
    }

    /// The gateway address, "host:port".
    pub fn address(&self) -> (r: String)
        ensures
            r@ == self.host@ + seq![':'] + nat_digits(self.port as nat),
    {
        let mut s = self.host.clone();
        s.push(':');
        push_nat_digits(&mut s, self.port as u64);
        s
    }

    /// The StartApi request for this session's client id.
    pub fn start_api_message(&self) -> (r: String)
        ensures
            r@ == start_api_text(self.client_id as int),
    {
        let mut s = String::new();
        s.push('7');
        s.push('1');
        s.push('\0');
        s.push('2');
        s.push('\0');
        push_int_text(&mut s, self.client_id as i64);
        s.push('\0');
        s.push('\0');
        s
    }

    /// Records the next valid order id the gateway gave.
    pub fn set_next_order_id(&mut self, id: i32)
        ensures
            final(self).next_order_id == id,
            final(self).api_token == old(self).api_token,
            final(self).host == old(self).host,
            final(self).port == old(self).port,
            final(self).client_id == old(self).client_id,
            final(self).connected == old(self).connected,
    {
        self.next_order_id = id;
    }

    /// Records whether a socket is open to the gateway.
    pub fn set_connected(&mut self, connected: bool)
        ensures
            final(self).connected == connected,
            final(self).next_order_id == old(self).next_order_id,
            final(self).api_token == old(self).api_token,
            final(self).host == old(self).host,
            final(self).port == old(self).port,
            final(self).client_id == old(self).client_id,
    {
        self.connected = connected;
    }

    /// The account-summary request to send, when connected; the balance
    /// reported is always zero.
    pub fn account_balance_request(&self) -> (r: (Option<String>, i64))
        ensures
            self.connected ==> (r.0 matches Some(m) && m@ == account_request_text()),
            !self.connected ==> r.0 is None,
            r.1 == 0,
    {
        if self.connected {
            let mut s = String::new();
            s.push('6');
            s.push('\0');
            s.push('1');
            s.push('\0');
            s.push('\0');
            (Some(s), 0)
        } else {
            (None, 0)
        }
    }

    /// Takes the next order id and builds the market order for `quantity`
    /// of `symbol`; fails, taking no id, when no socket is open.
    pub fn prepare_order(&mut self, symbol: &str, quantity: i64) -> (r: Result<PreparedOrder, String>)
        requires
            old(self).connected ==> old(self).next_order_id < i32::MAX,
        ensures
            final(self).host == old(self).host,
            final(self).port == old(self).port,
            final(self).client_id == old(self).client_id,
            final(self).connected == old(self).connected,
            final(self).api_token == old(self).api_token,
            !old(self).connected ==> (r matches Err(m) && m@ == "No active connection"@
                && final(self).next_order_id == old(self).next_order_id),
            old(self).connected ==> (r matches Ok(p) && {
                &&& p.order_id == old(self).next_order_id
                &&& final(self).next_order_id == old(self).next_order_id + 1
                &&& p.message@ == order_message_text(p.order_id as int, symbol@, quantity as int)
                &&& p.reference@ == order_reference_text(p.order_id as int)
            }),
    {
        if !self.connected {
            return Err(String::from_str("No active connection"));
        }
        let order_id = self.next_order_id;
        self.next_order_id = order_id + 1;
        let message = order_message(order_id, symbol, quantity);
        let mut reference = String::from_str("IBKR-REQ-");
        push_int_text(&mut reference, order_id as i64);
        Ok(PreparedOrder { order_id, message, reference })
    }
}

/// The placeOrder message for `quantity` of `symbol` as order `order_id`.
pub fn order_message(order_id: i32, symbol: &str, quantity: i64) -> (r: String)
    ensures
        r@ == order_message_text(order_id as int, symbol@, quantity as int),
{
    let mut id = String::new();
    push_int_text(&mut id, order_id as i64);
    let action = if quantity > 0 { String::from_str("BUY") } else { String::from_str("SELL") };
    let magnitude: u64 = if quantity < 0 { ((-(quantity + 1)) as u64) + 1 } else { quantity as u64 };
    let mut qty = String::new();
    push_fixed_text(&mut qty, magnitude);
    let ghost id_view = id@;
    let ghost action_view = action@;
    let ghost qty_view = qty@;
    let ghost head = order_head(id@, symbol@, action@, qty@);
    let mut f: Vec<String> = Vec::new();
    f.push(String::from_str("3"));
    f.push(id);
    f.push(String::from_str("0"));
    f.push(String::from_str(symbol));
    f.push(String::from_str("STK"));
    f.push(String::new());
    f.push(String::from_str("0"));
    f.push(String::new());
    f.push(String::new());
    f.push(String::from_str("SMART"));
    f.push(String::from_str("NASDAQ"));
    f.push(String::from_str("USD"));
    f.push(String::new());
    f.push(String::new());
    f.push(String::new());
    f.push(String::new());
    f.push(action);
    f.push(qty);
    f.push(String::from_str("MKT"));
    f.push(String::new());
    f.push(String::new());
    f.push(String::from_str("DAY"));
    f.push(String::new());
    f.push(String::new());
    f.push(String::new());
    f.push(String::from_str("0"));
    f.push(String::new());
    f.push(String::from_str("1"));
    proof {
        reveal_strlit("3");
        reveal_strlit("0");
        reveal_strlit("1");
        assert(head.len() == 28);
        assert(strings_view(f@).len() == 28);
        assert forall|i: int| 0 <= i < 28 implies #[trigger] strings_view(f@)[i] == head[i] by {
            assert(strings_view(f@)[i] == f@[i]@);
        }
    }
    while f.len() < ORDER_FIELD_COUNT
        invariant
            head.len() == 28,
            28 <= f@.len() <= ORDER_FIELD_COUNT,
            forall|i: int| 0 <= i < 28 ==> #[trigger] strings_view(f@)[i] == head[i],
            forall|i: int| 28 <= i < f@.len() ==> #[trigger] strings_view(f@)[i] == Seq::<char>::empty(),
        decreases ORDER_FIELD_COUNT - f.len(),
    {
        let ghost prev = f@;
        f.push(String::new());
        assert forall|i: int| 0 <= i < f@.len() - 1 implies #[trigger] strings_view(f@)[i] == strings_view(prev)[i] by {
            assert(f@[i] == prev[i]);
        }
        assert(strings_view(f@)[f@.len() - 1] == Seq::<char>::empty());
    }
    assert(strings_view(f@) =~= order_fields(id_view, symbol@, action_view, qty_view));
    let mut msg = join_fields(&f, '\0');
    msg.push('\0');
    msg
}

/// The header of a frame reads back as the payload's length in bytes, and the
/// rest of the frame is the payload's bytes (for payloads shorter than 4 GiB).
pub proof fn law_frame_round_trip(payload: Seq<char>)
    requires
        encode_utf8(payload).len() < 0x1_0000_0000,
    ensures
        frame_of(payload).len() == 4 + encode_utf8(payload).len(),
        be_value(frame_of(payload).take(4)) == encode_utf8(payload).len(),
        frame_of(payload).skip(4) == encode_utf8(payload),
{
    let n = encode_utf8(payload).len() as u32;
    let f = frame_of(payload);
    assert(f.take(4) =~= be_bytes(n));
    assert(f.skip(4) =~= encode_utf8(payload));
    let x: u32 = n;
    assert((x / 0x100_0000) * 0x100_0000 + ((x / 0x1_0000) % 0x100) * 0x1_0000 + ((x / 0x100) % 0x100)
        * 0x100 + x % 0x100 == x) by (bit_vector);
    assert(x / 0x100_0000 < 0x100) by (bit_vector);
}

/// Splitting an order message at NUL gives back its fields, then the empty
/// field after the closing NUL (when the symbol holds no NUL).
pub proof fn law_order_message_fields(order_id: int, symbol: Seq<char>, quantity: int)
    requires
        free_of(symbol, '\0'),
    ensures
        split_on(order_message_text(order_id, symbol, quantity), '\0') == order_fields(
            int_text(order_id),
            symbol,
            order_action(quantity),
            fixed_text(abs(quantity) as nat),
        ).push(Seq::<char>::empty()),
{
    let fields = order_fields(
        int_text(order_id),
        symbol,
        order_action(quantity),
        fixed_text(abs(quantity) as nat),
    );
    reveal_strlit("STK");
    reveal_strlit("SMART");
    reveal_strlit("NASDAQ");
    reveal_strlit("USD");
    reveal_strlit("MKT");
    reveal_strlit("DAY");
    reveal_strlit("BUY");
    reveal_strlit("SELL");
    lemma_int_text_free(order_id, '\0');
    lemma_fixed_text_free(abs(quantity) as nat, '\0');
    assert forall|i: int| 0 <= i < fields.len() implies free_of(#[trigger] fields[i], '\0') by {}
    law_split_join(fields, '\0');
    let joined = join_with(fields, '\0');
    assert(joined.push('\0').drop_last() =~= joined);
}

/// A "9" message carrying an order id written as decimal text gives that id.
pub proof fn law_next_valid_id_reads_back(parts: Seq<Seq<char>>, id: i32)
    requires
        parts.len() >= 2,
        parts[0] == "9"@,
        parts[1] == int_text(id as int),
    ensures
        next_valid_id_of(parts) == Some(id),
{
    law_int_text_reads_back(id);
}

} // verus!
