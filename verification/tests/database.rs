use storage_writer::config::StorageWriterConfig;
use storage_writer::database::Database;
use storage_writer::hash::Address;

#[test]
fn test_storage_writer_database_parsing() {
    assert_eq!(Database::Csv, "csv".parse().unwrap());
    assert_eq!(Database::Noop, "none".parse().unwrap());
    assert_eq!(Database::Postgres, "postgres".parse().unwrap());
}

#[test]
fn test_storage_writer_database_printing() {
    assert_eq!(Database::Csv.to_string(), "csv".to_owned());
    assert_eq!(Database::Noop.to_string(), "none".to_owned());
    assert_eq!(Database::Postgres.to_string(), "postgres".to_owned());
}

#[test]
fn test_storage_writer_database_all_types() {
    // compiling should fail if some cases are not covered
    let mut csv = 0;
    let mut none = 0;
    let mut postgres = 0;

    for db in &Database::all_types() {
        match *db {
            Database::Csv => csv += 1,
            Database::Noop => none += 1,
            Database::Postgres => postgres += 1,
        }
    }

    assert_eq!(csv, 1);
    assert_eq!(none, 1);
    assert_eq!(postgres, 1);
}

#[test]
fn parsing_rejects_other_strings_and_names_them() {
    for text in ["", "CSV", "Csv", "csv ", " none", "None", "postgresql", "pg", "sqlite", "csv\n"] {
        let parsed: Result<Database, String> = text.parse();
        assert_eq!(parsed, Err(format!("Invalid storage writing database: {}", text)));
    }
}

#[test]
fn parsing_rejects_text_beyond_ascii() {
    let parsed: Result<Database, String> = "nöne".parse();
    assert_eq!(parsed, Err("Invalid storage writing database: nöne".to_owned()));
}

#[test]
fn names_round_trip() {
    for db in Database::all_types() {
        let parsed: Database = db.as_str().parse().unwrap();
        assert_eq!(parsed, db);
        assert_eq!(parsed.as_str(), db.as_str());
        assert_eq!(db.to_string(), db.as_str());
    }
    for text in ["csv", "none", "postgres"] {
        let parsed: Database = text.parse().unwrap();
        assert_eq!(parsed.as_str(), text);
    }
}

#[test]
fn all_types_in_order() {
    assert_eq!(Database::all_types(), vec![Database::Csv, Database::Noop, Database::Postgres]);
}

#[test]
fn default_config_watches_nothing_and_writes_nowhere() {
    let config = StorageWriterConfig::default();
    assert!(config.watched_accounts.is_empty());
    assert_eq!(config.database, Database::Noop);
}

#[test]
fn configs_compare_by_list_and_database() {
    let a = StorageWriterConfig { watched_accounts: vec![Address([1; 20])], database: Database::Csv };
    let b = StorageWriterConfig { watched_accounts: vec![Address([1; 20])], database: Database::Csv };
    let c = StorageWriterConfig { watched_accounts: vec![Address([2; 20])], database: Database::Csv };
    let d = StorageWriterConfig { watched_accounts: vec![Address([1; 20])], database: Database::Postgres };
    let e = StorageWriterConfig {
        watched_accounts: vec![Address([1; 20]), Address([1; 20])],
        database: Database::Csv,
    };
    assert_eq!(a, b);
    assert_eq!(a, a.clone());
    assert_ne!(a, c);
    assert_ne!(a, d);
    assert_ne!(a, e);
    assert_ne!(a, StorageWriterConfig::default());
}
