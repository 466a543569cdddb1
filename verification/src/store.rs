//! What goes to the counter store and comes back from it: counter
//! keys, the four bytes of a stored count, and the answers of the
//! store.

use crate::clock::WindowBoundary;
use crate::text::{decimal, decimal_string, lemma_decimal_chars, lemma_decimal_injective};
use crate::window::{lemma_names_differ, WindowKind};
use vstd::arithmetic::div_mod::{
    lemma_div_denominator, lemma_fundamental_div_mod, lemma_fundamental_div_mod_converse,
};
use vstd::prelude::*;
use vstd::string::StringExecFns;

verus! {

/// How the store answered a conditional write.
#[derive(Clone, Copy, Debug, PartialEq, Eq, Structural)]
pub enum CasOutcome {
    /// The value was written.
    Stored,
    /// The counter is not at the expected version.
    VersionConflict,
    /// The store failed otherwise.
    OtherError,
}

/// The signed 32-bit integer that four bytes hold, least significant
/// byte first, in two's complement.
pub open spec fn le_value(bytes: Seq<u8>) -> int
    recommends
        bytes.len() == 4,
{
    let unsigned = bytes[0] + 256 * bytes[1] + 65536 * bytes[2] + 16777216 * bytes[3];
    if unsigned < 0x8000_0000 {
        unsigned
    } else {
        unsigned - 0x1_0000_0000
    }
}

/// The four bytes that hold `value`, least significant byte first, in
/// two's complement.
pub open spec fn le_bytes(value: int) -> Seq<u8>
    recommends
        i32::MIN <= value <= i32::MAX,
{
    let unsigned = if value < 0 {
        value + 0x1_0000_0000
    } else {
        value
    };
    seq![
        (unsigned % 256) as u8,
        (unsigned / 256 % 256) as u8,
        (unsigned / 65536 % 256) as u8,
        (unsigned / 16777216) as u8,
    ]
}

/// The count that stored data stands for: the integer of its four
/// bytes, and zero for data of any other length.
pub open spec fn counter_value(data: Seq<u8>) -> int {
    if data.len() == 4 {
        le_value(data)
    } else {
        0
    }
}

/// How an unsigned 32-bit integer splits into its four bytes.
proof fn lemma_byte_split(b0: int, b1: int, b2: int, b3: int)
    requires
        0 <= b0 < 256,
        0 <= b1 < 256,
        0 <= b2 < 256,
        0 <= b3 < 256,
    ensures
        ({
            let unsigned = b0 + 256 * b1 + 65536 * b2 + 16777216 * b3;
            &&& 0 <= unsigned < 0x1_0000_0000
            &&& unsigned % 256 == b0
            &&& unsigned / 256 % 256 == b1
            &&& unsigned / 65536 % 256 == b2
            &&& unsigned / 16777216 == b3
        }),
{
    let unsigned = b0 + 256 * b1 + 65536 * b2 + 16777216 * b3;
    lemma_fundamental_div_mod_converse(unsigned, 256, b1 + 256 * b2 + 65536 * b3, b0);
    lemma_fundamental_div_mod_converse(b1 + 256 * b2 + 65536 * b3, 256, b2 + 256 * b3, b1);
    lemma_fundamental_div_mod_converse(unsigned, 65536, b2 + 256 * b3, b0 + 256 * b1);
    lemma_fundamental_div_mod_converse(b2 + 256 * b3, 256, b3, b2);
    lemma_fundamental_div_mod_converse(unsigned, 16777216, b3, b0 + 256 * b1 + 65536 * b2);
}

/// An unsigned 32-bit integer is made of its four bytes.
proof fn lemma_byte_join(unsigned: int)
    requires
        0 <= unsigned < 0x1_0000_0000,
    ensures
        unsigned == unsigned % 256 + 256 * (unsigned / 256 % 256) + 65536 * (unsigned / 65536
            % 256) + 16777216 * (unsigned / 16777216),
        0 <= unsigned / 16777216 < 256,
{
    let x1 = unsigned / 256;
    let x2 = x1 / 256;
    lemma_div_denominator(unsigned, 256, 256);
    lemma_div_denominator(unsigned, 65536, 256);
    assert(x2 == unsigned / 65536);
    assert(x2 / 256 == unsigned / 16777216);
    lemma_fundamental_div_mod(unsigned, 256);
    lemma_fundamental_div_mod(x1, 256);
    lemma_fundamental_div_mod(x2, 256);
}

/// Encoding a count and decoding the bytes gives the count back.
pub proof fn lemma_counter_round_trip(value: i32)
    ensures
        le_bytes(value as int).len() == 4,
        counter_value(le_bytes(value as int)) == value,
{
    let unsigned: int = if value < 0 {
        value + 0x1_0000_0000
    } else {
        value as int
    };
    lemma_byte_join(unsigned);
}

/// Decoding four bytes and encoding the count gives the bytes back.
pub proof fn lemma_bytes_round_trip(bytes: Seq<u8>)
    requires
        bytes.len() == 4,
    ensures
        i32::MIN <= le_value(bytes) <= i32::MAX,
        le_bytes(le_value(bytes)) == bytes,
{
    lemma_byte_split(bytes[0] as int, bytes[1] as int, bytes[2] as int, bytes[3] as int);
    assert(le_bytes(le_value(bytes)) =~= bytes);
}

/// The count held by data read from the store.
pub fn decode_counter(data: &Vec<u8>) -> (value: i32)
    ensures
        value == counter_value(data@),
{
    if data.len() != 4 {
        return 0;
    }
    let unsigned: u32 = data[0] as u32 + 256 * (data[1] as u32) + 65536 * (data[2] as u32)
        + 16777216 * (data[3] as u32);
    if unsigned < 0x8000_0000 {
        unsigned as i32
    } else {
        let low: i32 = (unsigned - 0x8000_0000) as i32;
        low + i32::MIN
    }
}

/// The data that stores `value`.
pub fn encode_counter(value: i32) -> (data: Vec<u8>)
    ensures
        data@ == le_bytes(value as int),
{
    let unsigned: u32 = if value < 0 {
        ((value as i64) + 0x1_0000_0000) as u32
    } else {
        value as u32
    };
    let mut data: Vec<u8> = Vec::new();
    data.push((unsigned % 256) as u8);
    data.push((unsigned / 256 % 256) as u8);
    data.push((unsigned / 65536 % 256) as u8);
    data.push((unsigned / 16777216) as u8);
    assert(data@ =~= le_bytes(value as int));
    data
}

/// What a read of a counter tells: the count, zero where the store
/// holds none, and the version to write against.
pub open spec fn spec_usage(reply: Result<(Option<Vec<u8>>, Option<u32>), String>) -> Result<
    (i32, Option<u32>),
    String,
> {
    match reply {
        Ok((Some(data), cas)) => Ok((counter_value(data@) as i32, cas)),
        Ok((None, cas)) => Ok((0, cas)),
        Err(fault) => Err(fault),
    }
}

/// Reads the answer of the store to a read of a counter. A fault of
/// the store is handed on.
pub fn usage(reply: Result<(Option<Vec<u8>>, Option<u32>), String>) -> (reading: Result<
    (i32, Option<u32>),
    String,
>)
    ensures
        reading == spec_usage(reply),
{
    match reply {
        Ok((Some(data), cas)) => Ok((decode_counter(&data), cas)),
        Ok((None, cas)) => Ok((0, cas)),
        Err(fault) => Err(fault),
    }
}

/// The key of the counter of one window: scope, identity, window
/// start and window kind, after a fixed prefix.
pub open spec fn spec_local_key(
    route_id: Seq<char>,
    service_id: Seq<char>,
    id: Seq<char>,
    period: WindowKind,
    date: int,
) -> Seq<char> {
    "kong_wasm_rate_limiting_counters/ratelimit:"@ + route_id + ":"@ + service_id + ":"@ + id
        + ":"@ + decimal(date) + ":"@ + period.spec_name()
}

pub fn get_local_key(
    route_id: &str,
    service_id: &str,
    id: &str,
    period: WindowKind,
    date: i64,
) -> (key: String)
    ensures
        key@ == spec_local_key(route_id@, service_id@, id@, period, date as int),
{
    let mut key = String::from_str("kong_wasm_rate_limiting_counters/ratelimit:");
    key.append(route_id);
    key.append(":");
    key.append(service_id);
    key.append(":");
    key.append(id);
    key.append(":");
    let date_text = decimal_string(date);
    key.append(date_text.as_str());
    key.append(":");
    key.append(period.name());
    key
}

/// The key under which the counter of the current window of `period`
/// is read and written, `ts` holding the start of that window.
pub fn usage_key(
    route_id: &str,
    service_id: &str,
    id: &str,
    period: WindowKind,
    ts: &WindowBoundary,
) -> (key: String)
    ensures
        key@ == spec_local_key(
            route_id@,
            service_id@,
            id@,
            period,
            ts.starts.at(period) as int,
        ),
{
    get_local_key(route_id, service_id, id, period, ts.start(period))
}

/// The counters of one identity have keys of their own: two keys of one
/// scope and identity differ where the window kinds or the window
/// starts differ.
pub proof fn lemma_keys_differ(
    route_id: Seq<char>,
    service_id: Seq<char>,
    id: Seq<char>,
    period_a: WindowKind,
    date_a: int,
    period_b: WindowKind,
    date_b: int,
)
    requires
        period_a != period_b || date_a != date_b,
    ensures
        spec_local_key(route_id, service_id, id, period_a, date_a) != spec_local_key(
            route_id,
            service_id,
            id,
            period_b,
            date_b,
        ),
{
    let key_a = spec_local_key(route_id, service_id, id, period_a, date_a);
    let key_b = spec_local_key(route_id, service_id, id, period_b, date_b);
    let head = "kong_wasm_rate_limiting_counters/ratelimit:"@ + route_id + ":"@ + service_id
        + ":"@ + id + ":"@;
    let text_a = decimal(date_a);
    let text_b = decimal(date_b);
    let tail_a = text_a + ":"@ + period_a.spec_name();
    let tail_b = text_b + ":"@ + period_b.spec_name();
    reveal_strlit(":");
    lemma_decimal_chars(date_a);
    lemma_decimal_chars(date_b);
    lemma_names_differ(period_a, period_b);
    lemma_names_differ(period_b, period_a);
    assert(key_a =~= head + tail_a);
    assert(key_b =~= head + tail_b);
    if key_a == key_b {
        assert(tail_a =~= key_a.subrange(head.len() as int, key_a.len() as int));
        assert(tail_b =~= key_b.subrange(head.len() as int, key_b.len() as int));
        assert(tail_a == tail_b);
        if text_a.len() < text_b.len() {
            assert(tail_a[text_a.len() as int] == ':');
            assert(tail_b[text_a.len() as int] == text_b[text_a.len() as int]);
        } else if text_b.len() < text_a.len() {
            assert(tail_b[text_b.len() as int] == ':');
            assert(tail_a[text_b.len() as int] == text_a[text_b.len() as int]);
        } else {
            assert(text_a =~= tail_a.subrange(0, text_a.len() as int));
            assert(text_b =~= tail_b.subrange(0, text_b.len() as int));
            assert(period_a.spec_name() =~= tail_a.subrange(
                text_a.len() as int + 1,
                tail_a.len() as int,
            ));
            assert(period_b.spec_name() =~= tail_b.subrange(
                text_b.len() as int + 1,
                tail_b.len() as int,
            ));
            lemma_decimal_injective(date_a, date_b);
        }
    }
}

} // verus!
