//! A work assignment announced by the pool, and the difficulty of its target.
use vstd::prelude::*;
use vstd::utf8::is_ascii_chars;
use vstd::arithmetic::div_mod::lemma_div_is_ordered_by_denominator;
use vstd::arithmetic::power2::{lemma2_to64_rest, lemma_pow2_strictly_increases, pow2};
use num::ToPrimitive;
use crate::hex::{
    all_hex, all_lower_hex, be_value, has_blank, has_stray_char, is_hex_blank, is_hex_digit, hex_bytes, hex_nat, hex_text, is_quantity_digits,
    lemma_quantity_round_trip, lemma_text_bytes_text, quantity_digits, strip_0x,
};
use crate::json::JsonValue;

verus! {

/// The current proof-of-work puzzle: three 32-byte hashes and a block number.
#[derive(Clone, Copy, Debug, PartialEq, Eq)]
pub struct EthGetWorkResponse {
    pub header: [u8; 32],
    pub seed: [u8; 32],
    /// Big-endian 256-bit threshold.
    pub target: [u8; 32],
    pub block: u64,
}

pub struct WorkView {
    pub header: Seq<u8>,
    pub seed: Seq<u8>,
    pub target: Seq<u8>,
    pub block: u64,
}

impl View for EthGetWorkResponse {
    type V = WorkView;

    open spec fn view(&self) -> WorkView {
        WorkView { header: self.header@, seed: self.seed@, target: self.target@, block: self.block }
    }
}

/// The bytes that web3's `H256` decoding gives for a JSON string.
pub uninterp spec fn h256_decoded(s: Seq<char>) -> Option<Seq<u8>>;

/// The number that web3's `U64` decoding gives for a JSON string.
pub uninterp spec fn u64_decoded(s: Seq<char>) -> Option<u64>;

/// Relies on the `Deserialize` impl of `web3::types::H256` (impl-serde's
/// `deserialize_check_len` with an exact length of 32 bytes), reached through
/// `serde_json::from_value`: an optional `0x`, then exactly 64 digits of either
/// case, two per byte; any character that is neither a digit nor a blank fails.
#[verifier::external_body]
fn decode_h256(s: &str) -> (r: Option<[u8; 32]>)
    ensures
        r is Some <==> h256_decoded(s@) is Some,
        r matches Some(b) ==> h256_decoded(s@) == Some(b@),
        all_hex(strip_0x(s@)) ==> (r is Some <==> strip_0x(s@).len() == 64),
        all_hex(strip_0x(s@)) ==> (r matches Some(b) ==> b@ == hex_bytes(strip_0x(s@))),
        has_stray_char(strip_0x(s@)) ==> r is None,
{
    let v = serde_json::Value::String(s.to_owned());
    serde_json::from_value::<web3::types::H256>(v).ok().map(|h| h.0)
}

/// Relies on the `Deserialize` impl of `web3::types::U64` (impl-serde's
/// `deserialize_check_len` with at most 8 bytes), reached through
/// `serde_json::from_value`: an optional `0x`, then 1 to 16 digits of either
/// case, big-endian; any character that is neither a digit nor a blank fails.
#[verifier::external_body]
fn decode_u64(s: &str) -> (r: Option<u64>)
    ensures
        r == u64_decoded(s@),
        all_hex(strip_0x(s@)) ==> (r is Some <==> 0 < strip_0x(s@).len() <= 16),
        all_hex(strip_0x(s@)) ==> (r matches Some(n) ==> n as nat == hex_nat(strip_0x(s@))),
        has_stray_char(strip_0x(s@)) ==> r is None,
{
    let v = serde_json::Value::String(s.to_owned());
    serde_json::from_value::<web3::types::U64>(v).ok().map(|n| n.low_u64())
}

/// Relies on num-bigint: `BigUint::from_bytes_be` reads the target, `pow` and
/// `/` compute `2^256 / target` exactly (dividing by zero panics), and
/// `ToPrimitive::to_u64` gives `None` for a quotient past `u64::MAX`.
#[verifier::external_body]
fn pow256_div(target: &[u8; 32]) -> (r: Option<u64>)
    requires
        be_value(target@) > 0,
    ensures
        r is None <==> pow2(256) / be_value(target@) > u64::MAX,
        r matches Some(d) ==> d as nat == pow2(256) / be_value(target@),
{
    let two = num_bigint::BigUint::from(2u8);
    (two.pow(256u32) / num_bigint::BigUint::from_bytes_be(target)).to_u64()
}

/// `2^256 / t`, saturated to `u64::MAX`; a zero target has the maximal difficulty.
pub open spec fn difficulty_of(t: nat) -> u64 {
    if t == 0 || pow2(256) / t > u64::MAX {
        u64::MAX
    } else {
        (pow2(256) / t) as u64
    }
}

/// ASCII text with no blank in it: the only text a field may be.
pub open spec fn is_field_text(s: Seq<char>) -> bool {
    is_ascii_chars(s) && !has_blank(s)
}

/// A hash field: a JSON string, free of blanks, that decodes to 32 bytes.
pub open spec fn hash_field(v: JsonValue) -> Option<Seq<u8>> {
    match v {
        JsonValue::Str(s) => if is_field_text(s@) {
            h256_decoded(s@)
        } else {
            None
        },
        _ => None,
    }
}

/// A quantity field: a JSON string, free of blanks, that decodes to a `u64`.
pub open spec fn number_field(v: JsonValue) -> Option<u64> {
    match v {
        JsonValue::Str(s) => if is_field_text(s@) {
            u64_decoded(s@)
        } else {
            None
        },
        _ => None,
    }
}

/// Whether a text is ASCII without blanks.
fn is_field_str(s: &str) -> (r: bool)
    ensures
        r == is_field_text(s@),
{
    if !s.is_ascii() {
        return false;
    }
    proof {
        vstd::string::is_ascii_spec_bytes(s);
    }
    let b = s.as_bytes();
    let mut i: usize = 0;
    while i < b.len()
        invariant
            b@ == Seq::new(s@.len(), |k: int| s@[k] as u8),
            is_ascii_chars(s@),
            i <= b@.len(),
            forall|k: int| 0 <= k < i ==> !is_hex_blank(#[trigger] s@[k]),
        decreases b@.len() - i,
    {
        let x = b[i];
        let ghost c = s@[i as int];
        assert('\0' <= c <= '\u{7f}');
        assert(x == c as u8);
        if x == 32 || x == 13 || x == 10 || x == 9 {
            assert(is_hex_blank(c));
            return false;
        }
        assert(!is_hex_blank(c));
        i = i + 1;
    }
    true
}

/// Digits of either case after the `0x` make ASCII text without blanks.
proof fn lemma_hex_is_field_text(s: Seq<char>)
    requires
        all_hex(strip_0x(s)),
    ensures
        is_field_text(s),
{
    let d = strip_0x(s);
    let off: int = if s.len() >= 2 && s[0] == '0' && s[1] == 'x' { 2 } else { 0 };
    assert forall|i: int| 0 <= i < s.len() implies '\0' <= #[trigger] s[i] <= '\u{7f}' && !is_hex_blank(s[i]) by {
        if i >= off {
            assert(d[i - off] == s[i]);
            assert(is_hex_digit(d[i - off]));
        }
    }
}

/// The assignment that a work result denotes: an array whose first four
/// elements are header, seed, target and block number, all of them valid.
pub open spec fn work_of(v: JsonValue) -> Option<WorkView> {
    match v {
        JsonValue::Array(a) => if a@.len() >= 4 && hash_field(a@[0]) is Some && hash_field(a@[1]) is Some
            && hash_field(a@[2]) is Some && number_field(a@[3]) is Some {
            Some(
                WorkView {
                    header: hash_field(a@[0])->0,
                    seed: hash_field(a@[1])->0,
                    target: hash_field(a@[2])->0,
                    block: number_field(a@[3])->0,
                },
            )
        } else {
            None
        },
        _ => None,
    }
}

/// The characters of a JSON string; empty for any other value.
pub open spec fn text_of(v: JsonValue) -> Seq<char> {
    match v {
        JsonValue::Str(s) => s@,
        _ => Seq::empty(),
    }
}

/// How a hash is written on the wire: `0x` and two lower-case digits per byte.
pub open spec fn hash_text(b: Seq<u8>) -> Seq<char> {
    seq!['0', 'x'] + hex_text(b)
}

/// How a quantity is written on the wire: `0x` and its shortest digits.
pub open spec fn quantity_text(n: nat) -> Seq<char> {
    seq!['0', 'x'] + quantity_digits(n)
}

pub open spec fn has_0x(s: Seq<char>) -> bool {
    s.len() >= 2 && s[0] == '0' && s[1] == 'x'
}

/// A string in the form `hash_text` writes for 32 bytes.
pub open spec fn is_hash_text(v: JsonValue) -> bool {
    v is Str && text_of(v).len() == 66 && has_0x(text_of(v)) && all_lower_hex(strip_0x(text_of(v)))
}

/// A string in the form `quantity_text` writes for a `u64`.
pub open spec fn is_quantity_text(v: JsonValue) -> bool {
    v is Str && text_of(v).len() <= 18 && has_0x(text_of(v)) && is_quantity_digits(strip_0x(text_of(v)))
}

/// Not a string, or digits of the wrong count, or a character that is no digit.
pub open spec fn is_bad_hash(v: JsonValue) -> bool {
    let d = strip_0x(text_of(v));
    !(v is Str) || (all_hex(d) && d.len() != 64) || has_stray_char(d) || has_blank(text_of(v))
}

/// Not a string, or no digit or more than 16, or a character that is no digit.
pub open spec fn is_bad_number(v: JsonValue) -> bool {
    let d = strip_0x(text_of(v));
    !(v is Str) || (all_hex(d) && (d.len() == 0 || d.len() > 16)) || has_stray_char(d) || has_blank(
        text_of(v),
    )
}

/// A string of digits of either case after an optional `0x`.
pub open spec fn is_hex_field(v: JsonValue) -> bool {
    v is Str && all_hex(strip_0x(text_of(v)))
}

/// At least four elements, each of them hex digits after an optional `0x`.
pub open spec fn is_hex_work(v: JsonValue) -> bool {
    match v {
        JsonValue::Array(a) => a@.len() >= 4 && is_hex_field(a@[0]) && is_hex_field(a@[1])
            && is_hex_field(a@[2]) && is_hex_field(a@[3]),
        _ => false,
    }
}

/// Each hash of a hex work result has 64 digits, its block number 1 to 16.
pub open spec fn has_field_widths(v: JsonValue) -> bool {
    match v {
        JsonValue::Array(a) => a@.len() >= 4 && strip_0x(text_of(a@[0])).len() == 64 && strip_0x(
            text_of(a@[1]),
        ).len() == 64 && strip_0x(text_of(a@[2])).len() == 64 && 0 < strip_0x(text_of(a@[3])).len()
            <= 16,
        _ => false,
    }
}

/// Each field is the value of its digits: bytes two digits each, the block big-endian.
pub open spec fn holds_digits_of(w: WorkView, v: JsonValue) -> bool {
    match v {
        JsonValue::Array(a) => a@.len() >= 4 && w.header == hex_bytes(strip_0x(text_of(a@[0])))
            && w.seed == hex_bytes(strip_0x(text_of(a@[1]))) && w.target == hex_bytes(
            strip_0x(text_of(a@[2])),
        ) && w.block as nat == hex_nat(strip_0x(text_of(a@[3]))),
        _ => false,
    }
}

/// Four elements, each written the way the wire writes its field.
pub open spec fn is_canonical_work(v: JsonValue) -> bool {
    match v {
        JsonValue::Array(a) => a@.len() == 4 && is_hash_text(a@[0]) && is_hash_text(a@[1])
            && is_hash_text(a@[2]) && is_quantity_text(a@[3]),
        _ => false,
    }
}

/// Not an array, fewer than four elements, or an element that breaks its field's form.
pub open spec fn is_malformed_work(v: JsonValue) -> bool {
    match v {
        JsonValue::Array(a) => a@.len() < 4 || is_bad_hash(a@[0]) || is_bad_hash(a@[1])
            || is_bad_hash(a@[2]) || is_bad_number(a@[3]),
        _ => true,
    }
}

/// Each decoded field, written back in its wire form, is the element it came from.
pub open spec fn writes_back_to(w: WorkView, v: JsonValue) -> bool {
    match v {
        JsonValue::Array(a) => a@.len() >= 4 && hash_text(w.header) == text_of(a@[0])
            && hash_text(w.seed) == text_of(a@[1]) && hash_text(w.target) == text_of(a@[2])
            && quantity_text(w.block as nat) == text_of(a@[3]),
        _ => false,
    }
}

fn hash_from(v: &JsonValue) -> (r: Option<[u8; 32]>)
    ensures
        r is Some <==> hash_field(*v) is Some,
        r matches Some(b) ==> hash_field(*v) == Some(b@),
        is_hash_text(*v) ==> (r matches Some(b) && hash_text(b@) == text_of(*v)),
        is_bad_hash(*v) ==> r is None,
        is_hex_field(*v) ==> (r is Some <==> strip_0x(text_of(*v)).len() == 64),
        is_hex_field(*v) ==> (r matches Some(b) ==> b@ == hex_bytes(strip_0x(text_of(*v)))),
{
    match v {
        JsonValue::Str(s) => {
            proof {
                if is_hex_field(*v) {
                    lemma_hex_is_field_text(s@);
                }
            }
            if !is_field_str(s.as_str()) {
                return None;
            }
            let r = decode_h256(s.as_str());
            proof {
                if is_hash_text(*v) {
                    let d = strip_0x(s@);
                    assert(all_hex(d)) by {
                        assert forall|i: int| 0 <= i < d.len() implies crate::hex::is_hex_digit(#[trigger] d[i]) by {
                            assert(crate::hex::is_lower_hex_digit(d[i]));
                        }
                    }
                    lemma_text_bytes_text(d);
                    assert(hash_text(hex_bytes(d)) =~= s@);
                }
            }
            r
        },
        _ => None,
    }
}

fn number_from(v: &JsonValue) -> (r: Option<u64>)
    ensures
        r == number_field(*v),
        is_quantity_text(*v) ==> (r matches Some(n) && quantity_text(n as nat) == text_of(*v)),
        is_bad_number(*v) ==> r is None,
        is_hex_field(*v) ==> (r is Some <==> 0 < strip_0x(text_of(*v)).len() <= 16),
        is_hex_field(*v) ==> (r matches Some(n) ==> n as nat == hex_nat(strip_0x(text_of(*v)))),
{
    match v {
        JsonValue::Str(s) => {
            proof {
                if is_hex_field(*v) {
                    lemma_hex_is_field_text(s@);
                }
            }
            if !is_field_str(s.as_str()) {
                return None;
            }
            let r = decode_u64(s.as_str());
            proof {
                if is_quantity_text(*v) {
                    let d = strip_0x(s@);
                    assert(all_hex(d)) by {
                        assert forall|i: int| 0 <= i < d.len() implies crate::hex::is_hex_digit(#[trigger] d[i]) by {
                            assert(crate::hex::is_lower_hex_digit(d[i]));
                        }
                    }
                    lemma_quantity_round_trip(d);
                    assert(quantity_text(hex_nat(d)) =~= s@);
                }
            }
            r
        },
        _ => None,
    }
}

impl EthGetWorkResponse {
    /// Decodes a work result; any element that fails rejects the whole result.
    pub fn from_rpc(output: &JsonValue) -> (r: Option<Self>)
        ensures
            match work_of(*output) {
                Some(w) => r matches Some(x) && x@ == w,
                None => r is None,
            },
            is_malformed_work(*output) ==> r is None,
            is_canonical_work(*output) ==> (r matches Some(x) && writes_back_to(x@, *output)),
            is_hex_work(*output) ==> (r is Some <==> has_field_widths(*output)),
            is_hex_work(*output) ==> (r matches Some(x) ==> holds_digits_of(x@, *output)),
    {
        match output {
            JsonValue::Array(a) => {
                if a.len() < 4 {
                    return None;
                }
                let header = hash_from(&a[0])?;
                let seed = hash_from(&a[1])?;
                let target = hash_from(&a[2])?;
                let block = number_from(&a[3])?;
                Some(EthGetWorkResponse { header, seed, target, block })
            },
            _ => None,
        }
    }

    /// `2^256 / target` saturated to `u64::MAX`; `u64::MAX` for a zero target.
    pub fn difficulty(&self) -> (r: u64)
        ensures
            r == difficulty_of(be_value(self.target@)),
    {
        if is_zero(&self.target) {
            return u64::MAX;
        }
        match pow256_div(&self.target) {
            Some(d) => d,
            None => u64::MAX,
        }
    }
}

proof fn lemma_be_value_zero(b: Seq<u8>)
    ensures
        (be_value(b) == 0) <==> (forall|i: int| 0 <= i < b.len() ==> b[i] == 0),
    decreases b.len(),
{
    if b.len() > 0 {
        lemma_be_value_zero(b.drop_last());
        if be_value(b) == 0 {
            assert(be_value(b.drop_last()) == 0 && b.last() == 0);
            assert forall|i: int| 0 <= i < b.len() implies b[i] == 0 by {
                if i < b.len() - 1 {
                    assert(b.drop_last()[i] == b[i]);
                }
            }
        } else {
            if forall|i: int| 0 <= i < b.len() ==> b[i] == 0 {
                assert forall|i: int| 0 <= i < b.drop_last().len() implies b.drop_last()[i] == 0 by {
                    assert(b.drop_last()[i] == b[i]);
                }
                assert(b[b.len() - 1] == 0);
            }
        }
    }
}

fn is_zero(b: &[u8; 32]) -> (r: bool)
    ensures
        r == (be_value(b@) == 0),
{
    let mut i: usize = 0;
    while i < 32
        invariant
            i <= 32,
            b@.len() == 32,
            forall|j: int| 0 <= j < i ==> b@[j] == 0,
        decreases 32 - i,
    {
        if b[i] != 0 {
            proof {
                lemma_be_value_zero(b@);
            }
            return false;
        }
        i = i + 1;
    }
    proof {
        lemma_be_value_zero(b@);
    }
    true
}

/// A larger target never has a larger difficulty.
pub proof fn lemma_difficulty_monotone(t1: nat, t2: nat)
    requires
        t1 <= t2,
    ensures
        difficulty_of(t2) <= difficulty_of(t1),
{
    if t1 > 0 {
        lemma_div_is_ordered_by_denominator(pow2(256) as int, t1 as int, t2 as int);
    }
}

/// The smallest non-zero target saturates: `2^256 / 1` is past `u64::MAX`.
pub proof fn lemma_difficulty_of_one()
    ensures
        difficulty_of(1) == u64::MAX,
{
    lemma2_to64_rest();
    lemma_pow2_strictly_increases(64, 256);
    assert(pow2(256) / 1 == pow2(256));
}

} // verus!
