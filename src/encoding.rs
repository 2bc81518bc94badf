use vstd::prelude::*;

verus! {

/// The Bitcoin base58 alphabet: digit `d` is written as character `d`.
pub open spec fn base58_alphabet() -> Seq<char> {
    seq![
        '1', '2', '3', '4', '5', '6', '7', '8', '9', 'A', 'B', 'C',
        'D', 'E', 'F', 'G', 'H', 'J', 'K', 'L', 'M', 'N', 'P', 'Q',
        'R', 'S', 'T', 'U', 'V', 'W', 'X', 'Y', 'Z', 'a', 'b', 'c',
        'd', 'e', 'f', 'g', 'h', 'i', 'j', 'k', 'm', 'n', 'o', 'p',
        'q', 'r', 's', 't', 'u', 'v', 'w', 'x', 'y', 'z',
    ]
}

/// The bytes read as one big-endian number.
pub open spec fn be_value(bytes: Seq<u8>) -> nat
    decreases bytes.len(),
{
    if bytes.len() == 0 {
        0
    } else {
        (be_value(bytes.drop_last()) * 256 + bytes.last()) as nat
    }
}

/// How many zero bytes the bytes begin with.
pub open spec fn zero_prefix(bytes: Seq<u8>) -> nat
    decreases bytes.len(),
{
    if bytes.len() > 0 && bytes[0] == 0 {
        1 + zero_prefix(bytes.drop_first())
    } else {
        0
    }
}

/// The base-58 digits of `n`, most significant first, without leading zeros
/// (none at all for zero).
pub open spec fn base58_digits(n: nat) -> Seq<char>
    decreases n,
{
    if n == 0 {
        Seq::empty()
    } else {
        base58_digits(n / 58).push(base58_alphabet()[(n % 58) as int])
    }
}

/// The base58 text of a byte string: a `1` for each leading zero byte, then
/// the base-58 digits of the bytes' big-endian value.
pub open spec fn base58_of(bytes: Seq<u8>) -> Seq<char> {
    Seq::new(zero_prefix(bytes), |i: int| '1') + base58_digits(be_value(bytes))
}

/// Relies on `bs58::encode(..).into_string()` with its default (Bitcoin)
/// alphabet: the base58 text of the bytes.
#[verifier::external_body]
pub(crate) fn base58_encode(bytes: &[u8]) -> (r: String)
    ensures
        r@ == base58_of(bytes@),
{
    bs58::encode(bytes).into_string()
}

} // verus!
