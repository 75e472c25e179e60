//! Address encoding: from a hexadecimal address to the four decimal
//! arguments of the circuit.

use num_bigint::BigUint;
use num_traits::Num;
use vstd::prelude::*;
use vstd::string::*;

verus! {

/// The sequence `s` without its leading `'0'` characters.
pub open spec fn strip_leading_zeros(s: Seq<char>) -> Seq<char>
    decreases s.len(),
{
    if s.len() > 0 && s[0] == '0' {
        strip_leading_zeros(s.drop_first())
    } else {
        s
    }
}

/// The number of `'0'` characters at the front of `s`.
pub open spec fn leading_zeros(s: Seq<char>) -> nat
    decreases s.len(),
{
    if s.len() > 0 && s[0] == '0' {
        1 + leading_zeros(s.drop_first())
    } else {
        0
    }
}

/// Stripping drops exactly the leading run of zeros: what is dropped is all
/// `'0'`, and what remains does not start with `'0'`.
pub proof fn lemma_strip_is_skip(s: Seq<char>)
    ensures
        leading_zeros(s) <= s.len(),
        strip_leading_zeros(s) == s.skip(leading_zeros(s) as int),
        forall|i: int| 0 <= i < leading_zeros(s) ==> s[i] == '0',
        leading_zeros(s) < s.len() ==> s[leading_zeros(s) as int] != '0',
    decreases s.len(),
{
    if s.len() > 0 && s[0] == '0' {
        let t = s.drop_first();
        lemma_strip_is_skip(t);
        assert(t.skip(leading_zeros(t) as int) =~= s.skip(leading_zeros(s) as int));
        assert forall|i: int| 0 <= i < leading_zeros(s) implies s[i] == '0' by {
            if i > 0 {
                assert(s[i] == t[i - 1]);
            }
        }
    } else {
        assert(s.skip(0) =~= s);
    }
}

/// A sequence that does not start with `'0'` is left as it is.
pub proof fn lemma_strip_fixed_point(s: Seq<char>)
    requires
        s.len() == 0 || s[0] != '0',
    ensures
        strip_leading_zeros(s) == s,
{
}

/// Stripping is idempotent: a stripped sequence has no leading zero left, so
/// stripping it again changes nothing.
pub proof fn lemma_strip_idempotent(s: Seq<char>)
    ensures
        strip_leading_zeros(strip_leading_zeros(s)) == strip_leading_zeros(s),
    decreases s.len(),
{
    if s.len() > 0 && s[0] == '0' {
        lemma_strip_idempotent(s.drop_first());
    }
}

/// A sequence of zeros only strips to the empty sequence.
pub proof fn lemma_strip_all_zeros(s: Seq<char>)
    requires
        forall|i: int| 0 <= i < s.len() ==> s[i] == '0',
    ensures
        strip_leading_zeros(s) == Seq::<char>::empty(),
    decreases s.len(),
{
    if s.len() > 0 {
        lemma_strip_all_zeros(s.drop_first());
    } else {
        assert(s =~= Seq::<char>::empty());
    }
}

/// Removes the leading `'0'` characters of `s`. A string of zeros only
/// becomes the empty string.
pub fn remove_leading_zeros(s: &str) -> (r: &str)
    ensures
        r@ == strip_leading_zeros(s@),
{
    let n: usize = s.unicode_len();
    let mut i: usize = 0;
    while i < n && s.get_char(i) == '0'
        invariant
            n == s@.len(),
            i <= n,
            i <= leading_zeros(s@),
            forall|j: int| 0 <= j < i ==> s@[j] == '0',
        decreases n - i,
    {
        proof {
            lemma_strip_is_skip(s@);
        }
        i = i + 1;
    }
    proof {
        lemma_strip_is_skip(s@);
    }
    s.substring_char(i, n)
}

/// Whether `c` is one of the digits `0-9`, `a-f`, `A-F`.
pub open spec fn is_hex_digit(c: char) -> bool {
    ('0' <= c && c <= '9') || ('a' <= c && c <= 'f') || ('A' <= c && c <= 'F')
}

/// The value, 0 to 15, of a hexadecimal digit.
pub open spec fn hex_digit_value(c: char) -> nat
    recommends
        is_hex_digit(c),
{
    if '0' <= c && c <= '9' {
        (c as u32 - '0' as u32) as nat
    } else if 'a' <= c && c <= 'f' {
        (c as u32 - 'a' as u32 + 10) as nat
    } else {
        (c as u32 - 'A' as u32 + 10) as nat
    }
}

/// The number that a sequence of hexadecimal digits writes, most
/// significant digit first.
pub open spec fn hex_value(s: Seq<char>) -> nat
    decreases s.len(),
{
    if s.len() == 0 {
        0
    } else {
        16 * hex_value(s.drop_last()) + hex_digit_value(s.last())
    }
}

/// The character of a decimal digit.
pub open spec fn digit_char(d: nat) -> char
    recommends
        d < 10,
{
    ('0' as u8 + d as u8) as char
}

/// The decimal representation of `n`, without leading zeros; `"0"` for zero.
pub open spec fn decimal_digits(n: nat) -> Seq<char>
    decreases n,
{
    if n < 10 {
        seq![digit_char(n)]
    } else {
        decimal_digits(n / 10).push(digit_char(n % 10))
    }
}

/// Why an address could not be turned into a number.
#[derive(Debug, Clone, Copy, PartialEq, Eq, Structural)]
pub enum AddressDecodeFailure {
    /// The address has fewer than the two characters of the `0x` prefix.
    MissingPrefix,
    /// Nothing follows the prefix.
    NoDigits,
    /// The character at `position` of the address is the first after the
    /// prefix that is no hexadecimal digit.
    InvalidDigit { position: usize },
}

impl AddressDecodeFailure {
    /// What is said of the failure.
    pub open spec fn text(self) -> Seq<char> {
        match self {
            AddressDecodeFailure::MissingPrefix => "the prefix is missing"@,
            AddressDecodeFailure::NoDigits => "no digit follows the prefix"@,
            AddressDecodeFailure::InvalidDigit { .. } => "a character is no hexadecimal digit"@,
        }
    }

    /// What is said of the failure.
    pub fn message(&self) -> (r: String)
        ensures
            r@ == self.text(),
    {
        match self {
            AddressDecodeFailure::MissingPrefix => "the prefix is missing".to_owned(),
            AddressDecodeFailure::NoDigits => "no digit follows the prefix".to_owned(),
            AddressDecodeFailure::InvalidDigit { .. } => {
                "a character is no hexadecimal digit".to_owned()
            },
        }
    }
}

/// The failure that decoding `address` ends in, `None` where it succeeds:
/// the first two characters are taken for the prefix, and what follows has to
/// be at least one hexadecimal digit and nothing else.
pub open spec fn decode_failure(address: Seq<char>) -> Option<AddressDecodeFailure> {
    if address.len() < 2 {
        Some(AddressDecodeFailure::MissingPrefix)
    } else if address.len() == 2 {
        Some(AddressDecodeFailure::NoDigits)
    } else if exists|p: int| 2 <= p < address.len() && !is_hex_digit(#[trigger] address[p]) {
        let p = choose|p: int|
            2 <= p < address.len() && !is_hex_digit(#[trigger] address[p]) && forall|q: int|
                2 <= q < p ==> is_hex_digit(#[trigger] address[q]);
        Some(AddressDecodeFailure::InvalidDigit { position: p as usize })
    } else {
        None
    }
}

/// An address that decodes: a two-character prefix and then hexadecimal
/// digits, at least one.
pub open spec fn well_formed_address(address: Seq<char>) -> bool {
    &&& address.len() > 2
    &&& forall|p: int| 2 <= p < address.len() ==> is_hex_digit(#[trigger] address[p])
}

/// The decimal representation of the number that a well-formed address
/// writes in hexadecimal after its prefix.
pub open spec fn address_decimal(address: Seq<char>) -> Seq<char>
    recommends
        well_formed_address(address),
{
    decimal_digits(hex_value(address.skip(2)))
}

/// The four arguments of the circuit, as they are derived from one address.
#[derive(Debug, Clone, PartialEq, Eq)]
pub struct CircuitInputs {
    pub a: String,
    pub b: String,
    pub c: String,
    pub d: String,
}

/// What a [`CircuitInputs`] holds.
pub struct CircuitInputsView {
    pub a: Seq<char>,
    pub b: Seq<char>,
    pub c: Seq<char>,
    pub d: Seq<char>,
}

impl View for CircuitInputs {
    type V = CircuitInputsView;

    open spec fn view(&self) -> CircuitInputsView {
        CircuitInputsView { a: self.a@, b: self.b@, c: self.c@, d: self.d@ }
    }
}

/// The inputs made of a decimal string: `a` is its first half, rounded
/// down, `b` the rest, and `c` and `d` repeat them.
pub open spec fn circuit_inputs(decimal: Seq<char>) -> CircuitInputsView {
    let mid = decimal.len() as int / 2;
    let a = decimal.subrange(0, mid);
    let b = decimal.subrange(mid, decimal.len() as int);
    CircuitInputsView { a, b, c: a, d: b }
}

/// The number that is handed to the toolchain for one input: the input
/// without its leading zeros, and `"0"` where nothing is left of it.
pub open spec fn toolchain_number(part: Seq<char>) -> Seq<char> {
    if strip_leading_zeros(part).len() == 0 {
        seq!['0']
    } else {
        strip_leading_zeros(part)
    }
}

/// The halves of a decimal string rejoin to it, the first has half its
/// length rounded down, and the public inputs equal the private ones.
pub proof fn lemma_inputs_split_decimal(decimal: Seq<char>)
    ensures
        circuit_inputs(decimal).a + circuit_inputs(decimal).b == decimal,
        circuit_inputs(decimal).a.len() == decimal.len() / 2,
        circuit_inputs(decimal).a.len() + circuit_inputs(decimal).b.len() == decimal.len(),
        circuit_inputs(decimal).c == circuit_inputs(decimal).a,
        circuit_inputs(decimal).d == circuit_inputs(decimal).b,
{
    let mid = decimal.len() as int / 2;
    assert(decimal.subrange(0, mid) + decimal.subrange(mid, decimal.len() as int) =~= decimal);
}

/// A number for the toolchain is never empty and has a leading zero only
/// where it is `"0"` itself.
pub proof fn lemma_toolchain_number_canonical(part: Seq<char>)
    ensures
        toolchain_number(part).len() > 0,
        toolchain_number(part)[0] == '0' ==> toolchain_number(part) == seq!['0'],
{
    lemma_strip_is_skip(part);
}

/// `num_bigint::BigUint`: an unsigned integer of any size.
#[verifier::external_type_specification]
#[verifier::external_body]
pub struct ExBigUint(BigUint);

/// The number that a `BigUint` holds.
pub uninterp spec fn biguint_value(number: BigUint) -> nat;

/// Calls `BigUint::from_str_radix` with radix 16. On one or more
/// hexadecimal digits and nothing else it takes every character for a digit
/// and returns the number that they write, most significant digit first.
#[verifier::external_body]
fn parse_hex(digits: &str) -> (number: Option<BigUint>)
    requires
        digits@.len() > 0,
        forall|i: int| 0 <= i < digits@.len() ==> is_hex_digit(#[trigger] digits@[i]),
    ensures
        number is Some,
        biguint_value(number.unwrap()) == hex_value(digits@),
{
    match BigUint::from_str_radix(digits, 16) {
        Ok(number) => Some(number),
        Err(_) => None,
    }
}

/// Calls `to_string` on a `BigUint`, whose `Display` impl prints the number
/// in decimal, most significant digit first, without leading zeros, and zero
/// as `"0"`.
#[verifier::external_body]
fn to_decimal(number: &BigUint) -> (decimal: String)
    ensures
        decimal@ == decimal_digits(biguint_value(*number)),
{
    number.to_string()
}

/// Whether `c` is a hexadecimal digit.
pub fn hex_digit(c: char) -> (r: bool)
    ensures
        r == is_hex_digit(c),
{
    ('0' <= c && c <= '9') || ('a' <= c && c <= 'f') || ('A' <= c && c <= 'F')
}

/// Splits a decimal string at its midpoint into the four circuit inputs.
pub fn split_decimal(decimal: &str) -> (inputs: CircuitInputs)
    ensures
        inputs@ == circuit_inputs(decimal@),
{
    let n: usize = decimal.unicode_len();
    let mid: usize = n / 2;
    let a = decimal.substring_char(0, mid);
    let b = decimal.substring_char(mid, n);
    CircuitInputs { a: a.to_owned(), b: b.to_owned(), c: a.to_owned(), d: b.to_owned() }
}

/// Encodes an address: drops its two-character prefix, reads the rest as a
/// hexadecimal number of any size, writes that number in decimal and splits
/// the decimal string in two.
pub fn encode_address(address: &str) -> (r: Result<CircuitInputs, AddressDecodeFailure>)
    ensures
        match r {
            Ok(inputs) => well_formed_address(address@) && inputs@ == circuit_inputs(
                address_decimal(address@),
            ),
            Err(failure) => decode_failure(address@) == Some(failure),
        },
        well_formed_address(address@) <==> r is Ok,
        r matches Ok(inputs) ==> {
            &&& inputs@.a + inputs@.b == address_decimal(address@)
            &&& inputs@.a.len() == address_decimal(address@).len() / 2
            &&& inputs@.c == inputs@.a
            &&& inputs@.d == inputs@.b
        },
{
    let n: usize = address.unicode_len();
    if n < 2 {
        return Err(AddressDecodeFailure::MissingPrefix);
    }
    if n == 2 {
        return Err(AddressDecodeFailure::NoDigits);
    }
    let mut i: usize = 2;
    while i < n
        invariant
            n == address@.len(),
            2 <= i <= n,
            forall|q: int| 2 <= q < i ==> is_hex_digit(#[trigger] address@[q]),
        decreases n - i,
    {
        if !hex_digit(address.get_char(i)) {
            proof {
                let s = address@;
                let p = choose|p: int|
                    2 <= p < s.len() && !is_hex_digit(#[trigger] s[p]) && forall|q: int|
                        2 <= q < p ==> is_hex_digit(#[trigger] s[q]);
                assert(2 <= i < s.len() && !is_hex_digit(s[i as int]) && forall|q: int|
                    2 <= q < i ==> is_hex_digit(#[trigger] s[q]));
                assert(p == i) by {
                    if p < i {
                        assert(is_hex_digit(s[p]));
                    } else if i < p {
                        assert(is_hex_digit(s[i as int]));
                    }
                }
            }
            return Err(AddressDecodeFailure::InvalidDigit { position: i });
        }
        i = i + 1;
    }
    let digits = address.substring_char(2, n);
    assert(digits@ == address@.skip(2));
    match parse_hex(digits) {
        Some(number) => {
            let decimal = to_decimal(&number);
            proof {
                lemma_inputs_split_decimal(decimal@);
            }
            Ok(split_decimal(decimal.as_str()))
        },
        // Not taken: the digits were checked above.
        None => Err(AddressDecodeFailure::NoDigits),
    }
}

/// The number handed to the toolchain for one input: leading zeros are
/// dropped, and an input with nothing left is passed as `"0"`.
pub fn toolchain_argument(part: &str) -> (r: String)
    ensures
        r@ == toolchain_number(part@),
{
    let stripped = remove_leading_zeros(part);
    if stripped.unicode_len() == 0 {
        let zero = "0";
        proof {
            reveal_strlit("0");
            assert(zero@ =~= seq!['0']);
        }
        zero.to_owned()
    } else {
        stripped.to_owned()
    }
}

} // verus!
