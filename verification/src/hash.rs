//! Fixed-width identifiers and their hexadecimal text.

use vstd::prelude::*;

verus! {

/// A 20-byte account address.
#[derive(Debug, Eq, Clone, Copy, Hash)]
pub struct Address(pub [u8; 20]);

/// A 32-byte word: a block hash, a storage key or a storage value.
#[derive(Debug, Eq, Clone, Copy, Hash)]
pub struct H256(pub [u8; 32]);

impl View for Address {
    type V = Seq<u8>;

    open spec fn view(&self) -> Seq<u8> {
        self.0@
    }
}

impl View for H256 {
    type V = Seq<u8>;

    open spec fn view(&self) -> Seq<u8> {
        self.0@
    }
}

impl PartialEq for Address {
    fn eq(&self, other: &Self) -> (same: bool) {
        let mut i: usize = 0;
        while i < 20
            invariant
                i <= 20,
                forall|j: int| 0 <= j < i ==> self.0[j] == other.0[j],
            decreases 20 - i,
        {
            if self.0[i] != other.0[i] {
                return false;
            }
            i += 1;
        }
        assert(self.0 =~= other.0);
        true
    }
}

impl vstd::std_specs::cmp::PartialEqSpecImpl for Address {
    open spec fn obeys_eq_spec() -> bool {
        true
    }

    open spec fn eq_spec(&self, other: &Self) -> bool {
        *self == *other
    }
}

impl PartialEq for H256 {
    fn eq(&self, other: &Self) -> (same: bool) {
        let mut i: usize = 0;
        while i < 32
            invariant
                i <= 32,
                forall|j: int| 0 <= j < i ==> self.0[j] == other.0[j],
            decreases 32 - i,
        {
            if self.0[i] != other.0[i] {
                return false;
            }
            i += 1;
        }
        assert(self.0 =~= other.0);
        true
    }
}

impl vstd::std_specs::cmp::PartialEqSpecImpl for H256 {
    open spec fn obeys_eq_spec() -> bool {
        true
    }

    open spec fn eq_spec(&self, other: &Self) -> bool {
        *self == *other
    }
}

/// The lowercase hexadecimal digit that stands for `nibble`, a value below 16.
pub open spec fn hex_digit(nibble: int) -> char {
    "0123456789abcdef"@[nibble]
}

/// The lowercase hexadecimal text of `bytes`: two digits for each byte, the
/// high half first, bytes in order, without a prefix.
pub open spec fn lower_hex(bytes: Seq<u8>) -> Seq<char> {
    Seq::new(
        2 * bytes.len(),
        |i: int|
            if i % 2 == 0 {
                hex_digit(bytes[i / 2] as int / 16)
            } else {
                hex_digit(bytes[i / 2] as int % 16)
            },
    )
}

/// Whether `c` is one of `0`..`9`, `a`..`f`.
pub open spec fn is_lower_hex_digit(c: char) -> bool {
    ('0' <= c && c <= '9') || ('a' <= c && c <= 'f')
}

/// Hexadecimal text holds nothing but lowercase hexadecimal digits.
pub proof fn lemma_lower_hex_digits(bytes: Seq<u8>)
    ensures
        lower_hex(bytes).len() == 2 * bytes.len(),
        forall|i: int|
            0 <= i < lower_hex(bytes).len() ==> is_lower_hex_digit(#[trigger] lower_hex(bytes)[i]),
{
    reveal_strlit("0123456789abcdef");
    assert forall|i: int| 0 <= i < lower_hex(bytes).len() implies is_lower_hex_digit(
        #[trigger] lower_hex(bytes)[i],
    ) by {
        let b = bytes[i / 2] as int;
        assert(0 <= b / 16 < 16);
        assert(0 <= b % 16 < 16);
    }
}

/// Bytes with the same hexadecimal text are the same bytes.
pub proof fn lemma_lower_hex_injective(a: Seq<u8>, b: Seq<u8>)
    requires
        lower_hex(a) == lower_hex(b),
    ensures
        a == b,
{
    reveal_strlit("0123456789abcdef");
    assert(lower_hex(a).len() == 2 * a.len());
    assert(lower_hex(b).len() == 2 * b.len());
    assert forall|i: int| 0 <= i < a.len() implies a[i] == b[i] by {
        let x = a[i] as int;
        let y = b[i] as int;
        assert(lower_hex(a)[2 * i] == hex_digit(x / 16));
        assert(lower_hex(b)[2 * i] == hex_digit(y / 16));
        assert(lower_hex(a)[2 * i + 1] == hex_digit(x % 16));
        assert(lower_hex(b)[2 * i + 1] == hex_digit(y % 16));
        assert(0 <= x / 16 < 16 && 0 <= y / 16 < 16);
        assert(0 <= x % 16 < 16 && 0 <= y % 16 < 16);
        assert(x / 16 == y / 16);
        assert(x % 16 == y % 16);
    }
    assert(a =~= b);
}

/// Formats an address through the `LowerHex` implementation of
/// `ethereum_types::H160`, which `fixed_hash::construct_fixed_hash` writes.
/// Trusted: that implementation writes each byte of the hash, first to last,
/// as two lowercase hexadecimal digits, and writes a prefix only for the
/// alternate flag, which `{:x}` does not set.
#[verifier::external_body]
pub(crate) fn address_lower_hex(address: &Address) -> (text: String)
    ensures
        text@ == lower_hex(address@),
{
    format!("{:x}", ethereum_types::H160(address.0))
}

/// Formats a word through the `LowerHex` implementation of
/// `ethereum_types::H256`, which `fixed_hash::construct_fixed_hash` writes.
/// Trusted: that implementation writes each byte of the hash, first to last,
/// as two lowercase hexadecimal digits, and writes a prefix only for the
/// alternate flag, which `{:x}` does not set.
#[verifier::external_body]
pub(crate) fn word_lower_hex(word: &H256) -> (text: String)
    ensures
        text@ == lower_hex(word@),
{
    format!("{:x}", ethereum_types::H256(word.0))
}

} // verus!
