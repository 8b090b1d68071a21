//! The query encoder: turns a typed timetable request into the canonical
//! key/value string pairs the remote timetable endpoint expects.

use vstd::arithmetic::power2::{lemma2_to64, lemma_pow2_unfold, pow2};
use vstd::prelude::*;
use vstd::string::StringExecFns;
use vstd::string::StrSliceExecFns;

use crate::model::{Date, Station, TimeOfDay};

verus! {

/// Which of the two boards the endpoint should return: the trains arriving at
/// the station, or the trains departing from it.
#[derive(Clone, Copy, Debug, PartialEq, Eq, Structural)]
pub enum BoardType {
    Arrival,
    Departure,
}

/// The literal token the endpoint expects for each board type.
pub open spec fn spec_board_token(b: BoardType) -> Seq<char> {
    match b {
        BoardType::Arrival => "arr"@,
        BoardType::Departure => "dep"@,
    }
}

impl BoardType {
    /// The board-type parameter value: exactly `"arr"` for `Arrival` and
    /// exactly `"dep"` for `Departure`, never any other string.
    pub fn to_api_type(&self) -> (r: &'static str)
        ensures
            r@ == spec_board_token(*self),
    {
        match self {
            BoardType::Arrival => "arr",
            BoardType::Departure => "dep",
        }
    }
}

/// The product-type filters a query may combine. Each flag owns one reserved
/// bit position in the wire bitmask (see [`spec_product_bit`]); the positions
/// are a fixed assignment and are never reordered.
#[derive(Clone, Copy, Debug, PartialEq, Eq, Structural)]
pub enum ProductType {
    ICE,
    IC,
    InterRegio,
    Regio,
    SBahn,
    Bus,
    Ship,
    Metro,
    Tram,
    Taxi,
}

/// The reserved bit position of each product flag, most-significant flag
/// (high-speed rail) first.
pub open spec fn spec_product_bit(p: ProductType) -> u16 {
    match p {
        ProductType::ICE => 9,
        ProductType::IC => 8,
        ProductType::InterRegio => 7,
        ProductType::Regio => 6,
        ProductType::SBahn => 5,
        ProductType::Bus => 4,
        ProductType::Ship => 3,
        ProductType::Metro => 2,
        ProductType::Tram => 1,
        ProductType::Taxi => 0,
    }
}

impl ProductType {
    /// The bit position reserved for this flag in the product bitmask.
    pub fn bit_position(&self) -> (r: u16)
        ensures
            r == spec_product_bit(*self),
            r < 10,
    {
        match self {
            ProductType::ICE => 9,
            ProductType::IC => 8,
            ProductType::InterRegio => 7,
            ProductType::Regio => 6,
            ProductType::SBahn => 5,
            ProductType::Bus => 4,
            ProductType::Ship => 3,
            ProductType::Metro => 2,
            ProductType::Tram => 1,
            ProductType::Taxi => 0,
        }
    }
}

/// Whether bit `pos` of `bits` is set.
pub open spec fn spec_mask_bit(bits: u16, pos: u16) -> bool {
    (bits >> pos) & 1u16 == 1u16
}

/// A non-exclusive combination of product flags, held as the low ten bits of
/// a word: bit `spec_product_bit(p)` is set exactly when `p` is in the set.
#[derive(Clone, Copy, Debug, PartialEq, Eq, Structural)]
pub struct ProductSet {
    pub bits: u16,
}

/// The wire encoding of a flag word: one character per defined product flag,
/// most-significant flag first, `'1'` where the flag is set and `'0'` where it
/// is not.
pub open spec fn spec_product_mask_chars(bits: u16) -> Seq<char> {
    Seq::new(10, |i: int| if spec_mask_bit(bits, (9 - i) as u16) { '1' } else { '0' })
}

impl ProductSet {
    /// Only the ten reserved bit positions are used.
    pub open spec fn wf(self) -> bool {
        self.bits < 1024
    }

    /// Whether product flag `p` is in the set.
    pub open spec fn spec_has(self, p: ProductType) -> bool {
        spec_mask_bit(self.bits, spec_product_bit(p))
    }

    /// The empty combination: no flag set, passed through to the endpoint
    /// without local interpretation.
    pub fn empty() -> (r: Self)
        ensures
            r.wf(),
            r.bits == 0,
            forall|p: ProductType| !r.spec_has(p),
    {
        let r = ProductSet { bits: 0 };
        proof {
            assert(forall|k: u16| (0u16 >> k) & 1u16 == 0u16) by (bit_vector);
        }
        r
    }

    /// The combination with every defined product flag set.
    pub fn all() -> (r: Self)
        ensures
            r.wf(),
            r.bits == 0x3ff,
            forall|p: ProductType| r.spec_has(p),
    {
        let r = ProductSet { bits: 0x3ff };
        proof {
            assert(forall|k: u16| k < 10 ==> (0x3ffu16 >> k) & 1u16 == 1u16) by (bit_vector);
        }
        r
    }

    /// The set with flag `p` added; every other flag is as before.
    pub fn insert(&self, p: ProductType) -> (r: Self)
        ensures
            r.spec_has(p),
            forall|q: ProductType| q != p ==> r.spec_has(q) == self.spec_has(q),
            self.wf() ==> r.wf(),
    {
        let pos = p.bit_position();
        let r = ProductSet { bits: self.bits | (1u16 << pos) };
        proof {
            let b = self.bits;
            assert(forall|k: u16, j: u16|
                k < 10 && j < 10 ==> {
                    &&& ((b | (1u16 << k)) >> k) & 1u16 == 1u16
                    &&& (j != k ==> ((b | (1u16 << k)) >> j) & 1u16 == (b >> j) & 1u16)
                    &&& (b < 1024 ==> (b | (1u16 << k)) < 1024)
                }) by (bit_vector);
            assert(forall|q: ProductType| spec_product_bit(q) < 10);
            assert(forall|q: ProductType| q != p ==> spec_product_bit(q) != spec_product_bit(p));
        }
        r
    }

    /// Whether flag `p` is in the set.
    pub fn contains(&self, p: ProductType) -> (r: bool)
        ensures
            r == self.spec_has(p),
    {
        let pos = p.bit_position();
        (self.bits >> pos) & 1u16 == 1u16
    }

    /// The product parameter value: the flag word rendered in base two as a
    /// string of `'0'`/`'1'` characters, most-significant flag first, with a
    /// fixed width of one character per defined flag.
    pub fn to_api_type(&self) -> (r: String)
        ensures
            r@ == spec_product_mask_chars(self.bits),
            r@.len() == 10,
    {
        let bits = self.bits;
        let ghost chars = spec_product_mask_chars(bits);
        let mut s = String::new();
        let mut i: usize = 0;
        while i < 10
            invariant
                i <= 10,
                s@ =~= chars.take(i as int),
                chars == spec_product_mask_chars(bits),
            decreases 10 - i,
        {
            let pos: u16 = 9 - (i as u16);
            if (bits >> pos) & 1u16 == 1u16 {
                s.append("1");
                proof {
                    reveal_strlit("1");
                }
            } else {
                s.append("0");
                proof {
                    reveal_strlit("0");
                }
            }
            proof {
                assert(chars.take(i + 1) =~= chars.take(i as int).push(chars[i as int]));
            }
            i += 1;
        }
        proof {
            assert(chars.take(10) =~= chars);
        }
        s
    }
}

/// A well-shaped wire bitmask: one character per defined product flag, each
/// `'0'` or `'1'`.
pub open spec fn spec_valid_mask(s: Seq<char>) -> bool {
    s.len() == 10 && forall|i: int| 0 <= i < s.len() ==> s[i] == '0' || s[i] == '1'
}

/// The flag word a wire bitmask denotes, read most-significant flag first.
pub open spec fn spec_mask_bits_of(s: Seq<char>) -> int
    decreases s.len(),
{
    if s.len() == 0 {
        0
    } else {
        spec_mask_bits_of(s.drop_last()) * 2 + (if s.last() == '1' {
            1int
        } else {
            0int
        })
    }
}

impl ProductSet {
    /// Decodes a wire bitmask back into a flag set: succeeds exactly on
    /// well-shaped masks, and recovers the flag word the mask denotes.
    pub fn from_api_type(s: &str) -> (r: Option<ProductSet>)
        ensures
            match r {
                Some(ps) => spec_valid_mask(s@) && ps.bits == spec_mask_bits_of(s@) && ps.wf(),
                None => !spec_valid_mask(s@),
            },
    {
        let n = s.unicode_len();
        if n != 10 {
            return None;
        }
        proof {
            lemma2_to64();
        }
        let mut acc: u16 = 0;
        let mut i: usize = 0;
        while i < 10
            invariant
                i <= 10,
                s@.len() == 10,
                acc == spec_mask_bits_of(s@.take(i as int)),
                acc < pow2(i as nat),
                forall|j: int| 0 <= j < i ==> s@[j] == '0' || s@[j] == '1',
            decreases 10 - i,
        {
            proof {
                lemma2_to64();
                lemma_pow2_unfold((i + 1) as nat);
                assert(s@.take(i + 1).drop_last() =~= s@.take(i as int));
            }
            let c = s.get_char(i);
            if c == '1' {
                acc = 2 * acc + 1;
            } else if c == '0' {
                acc = 2 * acc;
            } else {
                return None;
            }
            i += 1;
        }
        proof {
            assert(s@.take(10) =~= s@);
            lemma2_to64();
        }
        Some(ProductSet { bits: acc })
    }
}

/// The encoded bitmask string always has one character per defined product
/// flag, each `'0'` or `'1'`; the all-flags set encodes to all `'1'`s and the
/// empty set to all `'0'`s.
pub proof fn lemma_bitmask_shape(s: ProductSet)
    ensures
        spec_product_mask_chars(s.bits).len() == 10,
        spec_valid_mask(spec_product_mask_chars(s.bits)),
        s.bits == 0x3ff ==> forall|i: int|
            0 <= i < 10 ==> spec_product_mask_chars(s.bits)[i] == '1',
        s.bits == 0 ==> forall|i: int| 0 <= i < 10 ==> spec_product_mask_chars(s.bits)[i] == '0',
{
    assert(forall|k: u16| k < 10 ==> (0x3ffu16 >> k) & 1u16 == 1u16) by (bit_vector);
    assert(forall|k: u16| (0u16 >> k) & 1u16 == 0u16) by (bit_vector);
}

/// The first `n` characters of an encoded bitmask denote the flag word's top
/// `n` bits.
proof fn lemma_mask_chars_prefix(bits: u16, n: int)
    requires
        bits < 1024,
        0 <= n <= 10,
    ensures
        spec_mask_bits_of(spec_product_mask_chars(bits).take(n)) == bits >> ((10 - n) as u16),
    decreases n,
{
    let e = spec_product_mask_chars(bits);
    if n == 0 {
        assert(bits >> 10u16 == 0) by (bit_vector)
            requires
                bits < 1024,
        ;
    } else {
        lemma_mask_chars_prefix(bits, n - 1);
        assert(e.take(n).drop_last() =~= e.take(n - 1));
        let k: u16 = (10 - n) as u16;
        assert((bits >> ((k + 1) as u16)) * 2 + ((bits >> k) & 1u16) == bits >> k) by (bit_vector)
            requires
                k < 10,
        ;
        assert(forall|b: u16, j: u16| (b >> j) & 1u16 == 0u16 || (b >> j) & 1u16 == 1u16)
            by (bit_vector);
    }
}

/// Round trip: decoding the encoded product bitmask recovers the flag set
/// exactly.
pub proof fn lemma_product_mask_roundtrip(s: ProductSet)
    requires
        s.wf(),
    ensures
        spec_valid_mask(spec_product_mask_chars(s.bits)),
        spec_mask_bits_of(spec_product_mask_chars(s.bits)) == s.bits,
{
    let b = s.bits;
    lemma_bitmask_shape(s);
    lemma_mask_chars_prefix(b, 10);
    assert(spec_product_mask_chars(b).take(10) =~= spec_product_mask_chars(b));
    assert(b >> 0u16 == b) by (bit_vector);
}

/// The decimal digit character for a value below ten.
pub open spec fn spec_digit_char(d: int) -> char {
    if d == 0 {
        '0'
    } else if d == 1 {
        '1'
    } else if d == 2 {
        '2'
    } else if d == 3 {
        '3'
    } else if d == 4 {
        '4'
    } else if d == 5 {
        '5'
    } else if d == 6 {
        '6'
    } else if d == 7 {
        '7'
    } else if d == 8 {
        '8'
    } else {
        '9'
    }
}

/// The decimal rendering of a non-negative number, most-significant digit
/// first, without leading zeros (zero renders as a single `'0'`).
pub open spec fn spec_decimal(n: int) -> Seq<char>
    recommends
        n >= 0,
    decreases n,
{
    if n < 10 {
        seq![spec_digit_char(n)]
    } else {
        spec_decimal(n / 10) + seq![spec_digit_char(n % 10)]
    }
}

/// The digit characters of `ds`, last digit first.
spec fn rev_digit_chars(ds: Seq<u8>) -> Seq<char> {
    Seq::new(ds.len(), |i: int| spec_digit_char(ds[ds.len() - 1 - i] as int))
}

/// The one-character string for a decimal digit.
fn digit_str(d: u8) -> (r: &'static str)
    requires
        d < 10,
    ensures
        r@ == seq![spec_digit_char(d as int)],
{
    proof {
        reveal_strlit("0");
        reveal_strlit("1");
        reveal_strlit("2");
        reveal_strlit("3");
        reveal_strlit("4");
        reveal_strlit("5");
        reveal_strlit("6");
        reveal_strlit("7");
        reveal_strlit("8");
        reveal_strlit("9");
    }
    match d {
        0 => "0",
        1 => "1",
        2 => "2",
        3 => "3",
        4 => "4",
        5 => "5",
        6 => "6",
        7 => "7",
        8 => "8",
        _ => "9",
    }
}

/// Renders a number as its decimal string, as the `max` parameter expects.
pub fn usize_to_decimal(n: usize) -> (r: String)
    ensures
        r@ == spec_decimal(n as int),
{
    let mut digits: Vec<u8> = Vec::new();
    let mut m: usize = n;
    loop
        invariant_except_break
            spec_decimal(n as int) =~= spec_decimal(m as int) + rev_digit_chars(digits@),
        invariant
            forall|j: int| 0 <= j < digits@.len() ==> digits@[j] < 10,
        ensures
            spec_decimal(n as int) =~= rev_digit_chars(digits@),
            forall|j: int| 0 <= j < digits@.len() ==> digits@[j] < 10,
        decreases m,
    {
        let ghost prev = digits@;
        let d: u8 = (m % 10) as u8;
        digits.push(d);
        proof {
            assert(rev_digit_chars(digits@) =~= seq![spec_digit_char(d as int)] + rev_digit_chars(
                prev,
            ));
        }
        m = m / 10;
        if m == 0 {
            break ;
        }
    }
    let mut s = String::new();
    let ghost chars = rev_digit_chars(digits@);
    let mut i: usize = digits.len();
    while i > 0
        invariant
            i <= digits@.len(),
            chars == rev_digit_chars(digits@),
            s@ =~= chars.take(digits@.len() - i),
            forall|j: int| 0 <= j < digits@.len() ==> digits@[j] < 10,
            spec_decimal(n as int) =~= chars,
        decreases i,
    {
        i -= 1;
        let ghost k = digits@.len() - 1 - i;
        s.append(digit_str(digits[i]));
        proof {
            assert(chars.take(k + 1) =~= chars.take(k).push(chars[k]));
        }
    }
    proof {
        assert(chars.take(digits@.len() as int) =~= chars);
    }
    s
}

/// A timetable request: a pure value, built by the caller and never mutated
/// afterwards. `stop` is the station identifier the endpoint keys on; `time`
/// and `date` are the wall-clock point the endpoint should timetable around;
/// `limit` is the greatest number of entries asked for, passed through
/// unvalidated.
#[derive(Clone, Debug)]
pub struct TimeTableQuery {
    pub stop: Station,
    pub board_type: BoardType,
    pub products: ProductSet,
    pub time: TimeOfDay,
    pub date: Date,
    pub limit: usize,
}

/// The canonical key/value pairs for a query, in the fixed order they are
/// sent: board-type token, station identifier (verbatim), product bitmask,
/// decimal entry limit, and the two fixed parameters that ask for real-time
/// adjusted results starting at the first entry. Nothing is percent-encoded
/// here; that is the transport's responsibility.
pub fn query_params(q: &TimeTableQuery) -> (r: Vec<(String, String)>)
    ensures
        r@.len() == 6,
        r@[0].0@ == "bt"@ && r@[0].1@ == spec_board_token(q.board_type),
        r@[1].0@ == "si"@ && r@[1].1@ == q.stop.0@,
        r@[2].0@ == "p"@ && r@[2].1@ == spec_product_mask_chars(q.products.bits),
        r@[3].0@ == "max"@ && r@[3].1@ == spec_decimal(q.limit as int),
        r@[4].0@ == "rt"@ && r@[4].1@ == "1"@,
        r@[5].0@ == "start"@ && r@[5].1@ == "1"@,
{
    let mut r: Vec<(String, String)> = Vec::new();
    r.push((String::from_str("bt"), String::from_str(q.board_type.to_api_type())));
    r.push((String::from_str("si"), q.stop.0.clone()));
    r.push((String::from_str("p"), q.products.to_api_type()));
    r.push((String::from_str("max"), usize_to_decimal(q.limit)));
    r.push((String::from_str("rt"), String::from_str("1")));
    r.push((String::from_str("start"), String::from_str("1")));
    r
}

} // verus!
