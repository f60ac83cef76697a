//! The choice of persistence target.

use vstd::prelude::*;
use vstd::utf8::{encode_utf8, encode_utf8_decode_utf8};

verus! {

/// Where watched storage changes are persisted.
#[derive(Debug, PartialEq, Eq, Structural, Clone, Copy)]
pub enum Database {
    /// CSV file
    Csv,
    /// No storage writer
    Noop,
    /// Postgres
    Postgres,
}

/// The target that `text` names; matching is exact and case-sensitive.
pub open spec fn parse_name(text: Seq<char>) -> Option<Database> {
    if text == "csv"@ {
        Some(Database::Csv)
    } else if text == "none"@ {
        Some(Database::Noop)
    } else if text == "postgres"@ {
        Some(Database::Postgres)
    } else {
        None
    }
}

/// The message for a text that names no target.
pub open spec fn invalid_name_message(text: Seq<char>) -> Seq<char> {
    "Invalid storage writing database: "@ + text
}

/// Every target, each once.
pub open spec fn all_databases() -> Seq<Database> {
    seq![Database::Csv, Database::Noop, Database::Postgres]
}

/// Whether two texts hold the same characters.
fn same_text(a: &str, b: &str) -> (same: bool)
    ensures
        same == (a@ == b@),
{
    let x = a.as_bytes();
    let y = b.as_bytes();
    if x.len() != y.len() {
        return false;
    }
    let mut i: usize = 0;
    while i < x.len()
        invariant
            i <= x.len(),
            x@.len() == y@.len(),
            forall|j: int| 0 <= j < i ==> x@[j] == y@[j],
            x@ == encode_utf8(a@),
            y@ == encode_utf8(b@),
        decreases x.len() - i,
    {
        if x[i] != y[i] {
            return false;
        }
        i += 1;
    }
    proof {
        assert(x@ =~= y@);
        encode_utf8_decode_utf8(a@);
        encode_utf8_decode_utf8(b@);
    }
    true
}

impl Database {
    /// The canonical name of a target.
    pub open spec fn name(self) -> Seq<char> {
        match self {
            Database::Csv => "csv"@,
            Database::Noop => "none"@,
            Database::Postgres => "postgres"@,
        }
    }

    /// Returns static str describing database.
    pub fn as_str(&self) -> (name: &'static str)
        ensures
            name@ == self.name(),
    {
        match *self {
            Database::Csv => "csv",
            Database::Noop => "none",
            Database::Postgres => "postgres",
        }
    }

    /// Returns all algorithm types.
    pub fn all_types() -> (all: Vec<Database>)
        ensures
            all@ == all_databases(),
    {
        let mut all: Vec<Database> = Vec::new();
        all.push(Database::Csv);
        all.push(Database::Noop);
        all.push(Database::Postgres);
        assert(all@ =~= all_databases());
        all
    }

    /// The canonical name of the target, as an owned string.
    pub fn to_string(&self) -> (name: String)
        ensures
            name@ == self.name(),
    {
        self.as_str().to_owned()
    }
}

impl std::str::FromStr for Database {
    type Err = String;

    fn from_str(s: &str) -> (parsed: Result<Database, String>)
        ensures
            match parse_name(s@) {
                Some(database) => parsed == Ok::<Database, String>(database),
                None => parsed is Err && parsed->Err_0@ == invalid_name_message(s@),
            },
    {
        if same_text(s, "csv") {
            Ok(Database::Csv)
        } else if same_text(s, "none") {
            Ok(Database::Noop)
        } else if same_text(s, "postgres") {
            Ok(Database::Postgres)
        } else {
            let mut message = "Invalid storage writing database: ".to_owned();
            message.append(s);
            Err(message)
        }
    }
}

/// The three names differ from one another.
pub proof fn lemma_names_differ(a: Database, b: Database)
    ensures
        a.name() == b.name() ==> a == b,
{
    reveal_strlit("csv");
    reveal_strlit("none");
    reveal_strlit("postgres");
    assert("csv"@.len() == 3);
    assert("none"@.len() == 4);
    assert("postgres"@.len() == 8);
}

/// Parsing the name of a target gives that target back, and a text that
/// parses is the name of the target it parses to.
pub proof fn lemma_name_round_trip(database: Database, text: Seq<char>)
    ensures
        parse_name(database.name()) == Some(database),
        parse_name(text) == Some(database) ==> text == database.name(),
        parse_name(text) is Some <==> exists|d: Database| text == #[trigger] d.name(),
{
    lemma_names_differ(database, Database::Csv);
    lemma_names_differ(database, Database::Noop);
    lemma_names_differ(database, Database::Postgres);
    if parse_name(text) is Some {
        let d = parse_name(text).unwrap();
        assert(text == d.name());
    }
}

/// Each target stands at exactly one place of the list of all targets.
pub proof fn lemma_all_databases_once(database: Database)
    ensures
        exists|i: int|
            0 <= i < all_databases().len() && #[trigger] all_databases()[i] == database && forall|
                j: int,
            |
                0 <= j < all_databases().len() && #[trigger] all_databases()[j] == database ==> j
                    == i,
{
    let all = all_databases();
    let i: int = match database {
        Database::Csv => 0,
        Database::Noop => 1,
        Database::Postgres => 2,
    };
    assert(all[i] == database);
    assert forall|j: int| 0 <= j < all.len() && #[trigger] all[j] == database implies j == i by {
        assert(all[0] == Database::Csv);
        assert(all[1] == Database::Noop);
        assert(all[2] == Database::Postgres);
    }
}

} // verus!
