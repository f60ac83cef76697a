//! The persisted unit and its CSV text.

use crate::hash::{
    address_lower_hex, lemma_lower_hex_digits, lemma_lower_hex_injective, lower_hex,
    word_lower_hex, Address, H256,
};
use vstd::prelude::*;

verus! {

/// One storage change of one contract in one block.
#[derive(Debug, Eq, Clone, Copy, Hash)]
pub struct StorageRecord {
    /// The contract whose storage changed.
    pub contract: Address,
    /// The hash of the block in which it changed.
    pub block_hash: H256,
    /// The height of that block.
    pub block_number: u64,
    /// The storage slot.
    pub key: H256,
    /// The slot's new value.
    pub value: H256,
}

impl PartialEq for StorageRecord {
    fn eq(&self, other: &Self) -> (same: bool) {
        self.contract == other.contract && self.block_hash == other.block_hash
            && self.block_number == other.block_number && self.key == other.key && self.value
            == other.value
    }
}

impl vstd::std_specs::cmp::PartialEqSpecImpl for StorageRecord {
    open spec fn obeys_eq_spec() -> bool {
        true
    }

    open spec fn eq_spec(&self, other: &Self) -> bool {
        *self == *other
    }
}

/// The decimal digit that stands for `d`, a value below 10.
pub open spec fn decimal_digit(d: int) -> char {
    "0123456789"@[d]
}

/// The decimal text of `n`: no sign, no leading zero, no separator.
pub open spec fn decimal(n: nat) -> Seq<char>
    decreases n,
{
    if n < 10 {
        seq![decimal_digit(n as int)]
    } else {
        decimal(n / 10).push(decimal_digit((n % 10) as int))
    }
}

/// Whether a field can stand in a CSV line as it is: it holds no comma, no
/// double quote and no line break.
pub open spec fn is_plain_field(field: Seq<char>) -> bool {
    forall|i: int|
        0 <= i < field.len() ==> {
            let c = #[trigger] field[i];
            c != ',' && c != '"' && c != '\r' && c != '\n'
        }
}

/// The CSV line of five plain fields: the fields in order, a comma between
/// neighbours, a line feed at the end.
pub open spec fn csv_line_of(
    a: Seq<char>,
    b: Seq<char>,
    c: Seq<char>,
    d: Seq<char>,
    e: Seq<char>,
) -> Seq<char> {
    a + seq![','] + b + seq![','] + c + seq![','] + d + seq![','] + e + seq!['\n']
}

/// Hexadecimal text is a plain field.
pub proof fn lemma_lower_hex_plain(bytes: Seq<u8>)
    ensures
        is_plain_field(lower_hex(bytes)),
{
    lemma_lower_hex_digits(bytes);
}

/// Decimal text is a plain field, and never empty.
pub proof fn lemma_decimal_plain(n: nat)
    ensures
        decimal(n).len() >= 1,
        forall|i: int| 0 <= i < decimal(n).len() ==> '0' <= #[trigger] decimal(n)[i] <= '9',
        is_plain_field(decimal(n)),
    decreases n,
{
    reveal_strlit("0123456789");
    if n >= 10 {
        lemma_decimal_plain(n / 10);
    }
}

/// Numbers with the same decimal text are the same number.
pub proof fn lemma_decimal_injective(m: nat, n: nat)
    requires
        decimal(m) == decimal(n),
    ensures
        m == n,
    decreases m,
{
    reveal_strlit("0123456789");
    lemma_decimal_plain(m / 10);
    lemma_decimal_plain(n / 10);
    if m < 10 {
        assert(decimal(m).len() == 1);
        assert(n < 10);
        assert(decimal(m)[0] == decimal_digit(m as int));
        assert(decimal(n)[0] == decimal_digit(n as int));
    } else {
        assert(decimal(m).len() >= 2);
        assert(n >= 10);
        let head = decimal(m / 10);
        let other = decimal(n / 10);
        assert(decimal(m).drop_last() =~= head);
        assert(decimal(n).drop_last() =~= other);
        lemma_decimal_injective(m / 10, n / 10);
        assert(decimal(m).last() == decimal_digit((m % 10) as int));
        assert(decimal(n).last() == decimal_digit((n % 10) as int));
        assert(m % 10 == n % 10);
    }
}

/// A line of five fields holds each field at its place: the first from the
/// start, each of the others behind the comma that follows the one before.
pub proof fn lemma_csv_line_fields(
    a: Seq<char>,
    b: Seq<char>,
    c: Seq<char>,
    d: Seq<char>,
    e: Seq<char>,
)
    ensures
        ({
            let line = csv_line_of(a, b, c, d, e);
            let at_b: int = a.len() as int + 1;
            let at_c: int = at_b + b.len() + 1;
            let at_d: int = at_c + c.len() + 1;
            let at_e: int = at_d + d.len() + 1;
            &&& line.len() == at_e + e.len() + 1
            &&& line.subrange(0, a.len() as int) == a
            &&& line.subrange(at_b, at_b + b.len()) == b
            &&& line.subrange(at_c, at_c + c.len()) == c
            &&& line.subrange(at_d, at_d + d.len()) == d
            &&& line.subrange(at_e, at_e + e.len()) == e
            &&& line[at_b - 1] == ','
            &&& line[at_c - 1] == ','
            &&& line[at_d - 1] == ','
            &&& line[at_e - 1] == ','
            &&& line.last() == '\n'
        }),
{
    let line = csv_line_of(a, b, c, d, e);
    let at_b: int = a.len() as int + 1;
    let at_c: int = at_b + b.len() + 1;
    let at_d: int = at_c + c.len() + 1;
    let at_e: int = at_d + d.len() + 1;
    assert(line.subrange(0, a.len() as int) =~= a);
    assert(line.subrange(at_b, at_b + b.len()) =~= b);
    assert(line.subrange(at_c, at_c + c.len()) =~= c);
    assert(line.subrange(at_d, at_d + d.len()) =~= d);
    assert(line.subrange(at_e, at_e + e.len()) =~= e);
}

/// Formats a block number through std's `Display` for `u64`. Trusted: it
/// writes the number in decimal, without sign, padding or separators.
#[verifier::external_body]
fn u64_decimal(n: u64) -> (text: String)
    ensures
        text@ == decimal(n as nat),
{
    format!("{}", n)
}

/// Writes one record of five fields with `csv::Writer::write_record`, on a
/// writer in its default configuration over an empty `Vec<u8>`, and reads the
/// line back from `csv::Writer::into_inner`. Trusted: that writer quotes a
/// field only where it holds a comma, a double quote, a carriage return or a
/// line feed, so plain fields are copied; it puts a comma between fields and
/// ends the record with a line feed. Appending to a `Vec<u8>` does not fail,
/// and the first record of a writer has no field count to differ from, so a
/// line is always returned.
#[verifier::external_body]
fn csv_write_record(a: &str, b: &str, c: &str, d: &str, e: &str) -> (line: Option<String>)
    requires
        is_plain_field(a@),
        is_plain_field(b@),
        is_plain_field(c@),
        is_plain_field(d@),
        is_plain_field(e@),
    ensures
        line is Some,
        line.unwrap()@ == csv_line_of(a@, b@, c@, d@, e@),
{
    let mut writer = csv::Writer::from_writer(Vec::new());
    writer.write_record([a, b, c, d, e]).ok()?;
    String::from_utf8(writer.into_inner().ok()?).ok()
}

impl StorageRecord {
    /// The record's line in the CSV file: contract, block hash, block number,
    /// key and value, the number in decimal and the others in hexadecimal.
    pub open spec fn csv_line(self) -> Seq<char> {
        csv_line_of(
            lower_hex(self.contract@),
            lower_hex(self.block_hash@),
            decimal(self.block_number as nat),
            lower_hex(self.key@),
            lower_hex(self.value@),
        )
    }

    /// Records with the same line are the same record.
    pub proof fn lemma_csv_line_injective(self, other: StorageRecord)
        requires
            self.csv_line() == other.csv_line(),
        ensures
            self == other,
    {
        let line = self.csv_line();
        lemma_csv_line_fields(
            lower_hex(self.contract@),
            lower_hex(self.block_hash@),
            decimal(self.block_number as nat),
            lower_hex(self.key@),
            lower_hex(self.value@),
        );
        lemma_csv_line_fields(
            lower_hex(other.contract@),
            lower_hex(other.block_hash@),
            decimal(other.block_number as nat),
            lower_hex(other.key@),
            lower_hex(other.value@),
        );
        assert(decimal(self.block_number as nat).len() == decimal(
            other.block_number as nat,
        ).len());
        lemma_lower_hex_injective(self.contract@, other.contract@);
        lemma_lower_hex_injective(self.block_hash@, other.block_hash@);
        lemma_decimal_injective(self.block_number as nat, other.block_number as nat);
        lemma_lower_hex_injective(self.key@, other.key@);
        lemma_lower_hex_injective(self.value@, other.value@);
        assert(self.contract.0 =~= other.contract.0);
        assert(self.block_hash.0 =~= other.block_hash.0);
        assert(self.key.0 =~= other.key.0);
        assert(self.value.0 =~= other.value.0);
    }

    /// Renders the record as one line of the CSV file.
    pub fn csv_row(&self) -> (row: String)
        ensures
            row@ == self.csv_line(),
    {
        let contract = address_lower_hex(&self.contract);
        let block_hash = word_lower_hex(&self.block_hash);
        let block_number = u64_decimal(self.block_number);
        let key = word_lower_hex(&self.key);
        let value = word_lower_hex(&self.value);
        proof {
            lemma_lower_hex_plain(self.contract@);
            lemma_lower_hex_plain(self.block_hash@);
            lemma_decimal_plain(self.block_number as nat);
            lemma_lower_hex_plain(self.key@);
            lemma_lower_hex_plain(self.value@);
        }
        let line = csv_write_record(
            contract.as_str(),
            block_hash.as_str(),
            block_number.as_str(),
            key.as_str(),
            value.as_str(),
        );
        line.unwrap()
    }
}

} // verus!
