use vstd::prelude::*;

verus! {

/// Ticker symbol: 8 ASCII bytes, left-justified and space-padded.
/// Equality is byte-wise; nothing is trimmed.
pub type Stock = [u8; 8];

/// Market-participant identifier: 4 ASCII bytes.
pub type MPID = [u8; 4];

/// ASCII decimal digits of `n`, most significant first, no leading zeros.
pub open spec fn dec_bytes(n: nat) -> Seq<u8>
    decreases n,
{
    if n < 10 {
        seq![(48 + n) as u8]
    } else {
        dec_bytes(n / 10) + seq![(48 + n % 10) as u8]
    }
}

/// The bytes of a sequence read as characters, one per ASCII byte.
pub open spec fn ascii_chars(s: Seq<u8>) -> Seq<char> {
    s.map_values(|b: u8| b as char)
}

/// Fixed-point text of `value` with `frac` implied decimal digits: the
/// decimal digits of the integer part, a dot, and the zero-padded digits
/// of the fractional part.
pub open spec fn fixed_point_bytes(value: nat, frac: nat) -> Seq<u8> {
    dec_bytes(value / pow10(frac)) + seq![46u8] + padded_dec_bytes(value % pow10(frac), frac)
}

/// Ten to the `n`.
pub open spec fn pow10(n: nat) -> nat
    decreases n,
{
    if n == 0 {
        1
    } else {
        10 * pow10((n - 1) as nat)
    }
}

/// ASCII decimal digits of `n`, zero-padded on the left to `width` digits.
pub open spec fn padded_dec_bytes(n: nat, width: nat) -> Seq<u8> {
    Seq::new(width, |i: int| (48 + (n / pow10((width - 1 - i) as nat)) % 10) as u8)
}

/// Appends the decimal digits of `n`, most significant first.
fn push_dec(v: &mut Vec<u8>, n: u64)
    ensures
        final(v)@ == old(v)@ + dec_bytes(n as nat),
    decreases n,
{
    if n < 10 {
        v.push(48 + n as u8);
        proof {
            assert(final(v)@ =~= old(v)@ + dec_bytes(n as nat));
        }
    } else {
        proof {
            assert(n / 10 < n) by (nonlinear_arith)
                requires
                    n >= 10,
            ;
        }
        push_dec(v, n / 10);
        v.push(48 + (n % 10) as u8);
        proof {
            assert(final(v)@ =~= old(v)@ + dec_bytes(n as nat));
        }
    }
}

/// Every byte of `dec_bytes(n)` is an ASCII digit.
proof fn lemma_dec_bytes_ascii(n: nat)
    ensures
        forall|i: int| 0 <= i < dec_bytes(n).len() ==> 48 <= #[trigger] dec_bytes(n)[i] < 58,
    decreases n,
{
    if n < 10 {
        assert(dec_bytes(n) == seq![(48 + n) as u8]);
    } else {
        lemma_dec_bytes_ascii(n / 10);
        assert(dec_bytes(n) == dec_bytes(n / 10) + seq![(48 + n % 10) as u8]);
        assert forall|i: int| 0 <= i < dec_bytes(n).len() implies 48 <= #[trigger] dec_bytes(
            n,
        )[i] < 58 by {
            if i < dec_bytes(n / 10).len() {
                assert(dec_bytes(n)[i] == dec_bytes(n / 10)[i]);
            } else {
                assert(dec_bytes(n)[i] == (48 + n % 10) as u8);
            }
        }
    }
}

/// Fixed-point price with 4 implied decimal digits, backed by a `u32`.
/// `Price4 { value: 150_0000 }` stands for 15.0000. The order on prices is
/// the order on the backing integers.
#[derive(Debug, Clone, Copy, PartialEq, Eq, Structural)]
pub struct Price4 {
    pub value: u32,
}

impl Price4 {
    /// Wraps a raw fixed-point value.
    pub fn new(value: u32) -> (r: Price4)
        ensures
            r.value == value,
    {
        Price4 { value }
    }

    /// Exact decimal text: integer part, a dot, four fraction digits.
    pub fn convert_to_string(&self) -> (r: String)
        ensures
            r@ == ascii_chars(fixed_point_bytes(self.value as nat, 4)),
    {
        let mut v: Vec<u8> = Vec::new();
        push_dec(&mut v, (self.value / 10000) as u64);
        v.push(46);
        let f = self.value % 10000;
        v.push(48 + ((f / 1000) % 10) as u8);
        v.push(48 + ((f / 100) % 10) as u8);
        v.push(48 + ((f / 10) % 10) as u8);
        v.push(48 + (f % 10) as u8);
        proof {
            reveal_with_fuel(pow10, 5);
            assert(pow10(0) == 1 && pow10(1) == 10 && pow10(2) == 100 && pow10(3) == 1000
                && pow10(4) == 10000);
            let n = (self.value % 10000) as nat;
            let p = padded_dec_bytes(n, 4);
            assert(p[0] == (48 + (n / 1000) % 10) as u8);
            assert(p[1] == (48 + (n / 100) % 10) as u8);
            assert(n / 1 == n);
            assert(p[2] == (48 + (n / 10) % 10) as u8);
            assert(p[3] == (48 + n % 10) as u8);
            assert(v@ =~= fixed_point_bytes(self.value as nat, 4));
            lemma_dec_bytes_ascii((self.value / 10000) as nat);
        }
        ascii_to_string(v)
    }
}

/// Fixed-point price with 8 implied decimal digits, backed by a `u64`.
#[derive(Debug, Clone, Copy, PartialEq, Eq, Structural)]
pub struct Price8 {
    pub value: u64,
}

impl Price8 {
    /// Wraps a raw fixed-point value.
    pub fn new(value: u64) -> (r: Price8)
        ensures
            r.value == value,
    {
        Price8 { value }
    }

    /// Exact decimal text: integer part, a dot, eight fraction digits.
    pub fn convert_to_string(&self) -> (r: String)
        ensures
            r@ == ascii_chars(fixed_point_bytes(self.value as nat, 8)),
    {
        let mut v: Vec<u8> = Vec::new();
        push_dec(&mut v, self.value / 100000000);
        v.push(46);
        let f = self.value % 100000000;
        v.push(48 + ((f / 10000000) % 10) as u8);
        v.push(48 + ((f / 1000000) % 10) as u8);
        v.push(48 + ((f / 100000) % 10) as u8);
        v.push(48 + ((f / 10000) % 10) as u8);
        v.push(48 + ((f / 1000) % 10) as u8);
        v.push(48 + ((f / 100) % 10) as u8);
        v.push(48 + ((f / 10) % 10) as u8);
        v.push(48 + (f % 10) as u8);
        proof {
            reveal_with_fuel(pow10, 9);
            assert(pow10(0) == 1 && pow10(1) == 10 && pow10(2) == 100 && pow10(3) == 1000
                && pow10(4) == 10000 && pow10(5) == 100000 && pow10(6) == 1000000 && pow10(7)
                == 10000000 && pow10(8) == 100000000);
            let n = (self.value % 100000000) as nat;
            let p = padded_dec_bytes(n, 8);
            assert(p[0] == (48 + (n / 10000000) % 10) as u8);
            assert(p[1] == (48 + (n / 1000000) % 10) as u8);
            assert(p[2] == (48 + (n / 100000) % 10) as u8);
            assert(p[3] == (48 + (n / 10000) % 10) as u8);
            assert(p[4] == (48 + (n / 1000) % 10) as u8);
            assert(p[5] == (48 + (n / 100) % 10) as u8);
            assert(n / 1 == n);
            assert(p[6] == (48 + (n / 10) % 10) as u8);
            assert(p[7] == (48 + n % 10) as u8);
            assert(v@ =~= fixed_point_bytes(self.value as nat, 8));
            lemma_dec_bytes_ascii((self.value / 100000000) as nat);
        }
        ascii_to_string(v)
    }
}

/// Relies on `String::from_utf8`: a vector of ASCII bytes is valid UTF-8 and
/// becomes the string with exactly those characters.
#[verifier::external_body]
fn ascii_to_string(v: Vec<u8>) -> (r: String)
    requires
        forall|i: int| 0 <= i < v@.len() ==> v@[i] < 128,
    ensures
        r@ == ascii_chars(v@),
{
    String::from_utf8(v).unwrap()
}

/// A decoding failure: the slice has the wrong length for the record, or a
/// categorical byte lies outside its alphabet.
#[derive(Debug, Clone, Copy, PartialEq, Eq)]
pub enum ParseError {
    InvalidBooleanByte { invalid_byte: u8 },
    IncompleteMessage { expected: usize },
    InvalidSystemEventCode { invalid_byte: u8 },
    InvalidCrossType { invalid_byte: u8 },
    InvalidMarketCategory { invalid_byte: u8 },
    InvalidFinancialStatusIndicator { invalid_byte: u8 },
    InvalidIssueClassificationCode { invalid_byte: u8 },
    InvalidAuthenticity { invalid_byte: u8 },
    InvalidShortSaleThresholdIndicator { invalid_byte: u8 },
    InvalidLuldReferencePriceTier { invalid_byte: u8 },
    InvalidTradingState { invalid_byte: u8 },
    InvalidTradingReasonCode,
    InvalidRegSHOAction { invalid_byte: u8 },
    InvalidMarketMakerMode { invalid_byte: u8 },
    InvalidMarketParticipantState { invalid_byte: u8 },
    InvalidMWCBLevel { invalid_byte: u8 },
    InvalidIPOReleaseQualifier { invalid_byte: u8 },
    InvalidBuySellIndicator { invalid_byte: u8 },
    InvalidImbalanceDirection { invalid_byte: u8 },
    InvalidPriceVariationIndicator { invalid_byte: u8 },
}

/// A book-mutation failure: a structural rule of the order book was about
/// to be broken.
#[derive(Debug, Clone, Copy, PartialEq, Eq)]
pub enum OrderBookError {
    DuplicateOrder,
    NonExistentOrder,
    InvalidCancellation,
}

/// Fixed byte length of a record's wire payload (10-byte header included,
/// type tag excluded).
pub trait BinaryMessageLength {
    const LENGTH: usize;
}

/// One-byte ITCH type tag of a record.
pub trait MessageHeaderType {
    const MESSAGE_TYPE: u8;
}

/// Payload length of the longer variant of a record that comes in two
/// lengths (the add-order record with an attached MPID).
pub trait AltBinaryMessageLength {
    const ALT_LENGTH: usize;
}

/// Type tag of the longer variant of a record that comes in two lengths.
pub trait AltMessageHeaderType {
    const ALT_MESSAGE_TYPE: u8;
}

/// A record that decodes from a slice of its exact wire length.
pub trait Parse: Sized {
    fn parse(input: &[u8]) -> Result<Self, ParseError>;
}

/// A record that can produce a wire-format example of itself for tests.
pub trait GenerateExampleMessage {
    fn generate_binary_example() -> Vec<u8>;
}

/// A categorical field that can enumerate its byte alphabet and draw a
/// valid example byte.
pub trait EnumTestHelpers: Sized {
    /// Whether `code` lies in the field's byte alphabet.
    spec fn spec_valid_code(code: u8) -> bool;

    fn valid_codes() -> (v: Vec<u8>)
        ensures
            v@.len() > 0,
            forall|i: int| 0 <= i < v@.len() ==> #[trigger] Self::spec_valid_code(v@[i]),
    ;

    fn generate_example_code() -> (r: u8)
        ensures
            Self::spec_valid_code(r),
    ;
}

} // verus!
