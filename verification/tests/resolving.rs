use bulk_load::error::ErrorKind;
use bulk_load::reply::QueryReply;
use bulk_load::resolver::{Resolution, Resolver, Target};

fn found() -> QueryReply {
    QueryReply::Answered { has_columns: true, row_count: Some(1) }
}

fn empty() -> QueryReply {
    QueryReply::Answered { has_columns: true, row_count: Some(0) }
}

fn ready(resolution: Resolution) -> Target {
    match resolution {
        Resolution::Ready(target) => target,
        Resolution::Create(_) => panic!("a table is to be created"),
        Resolution::Failed(error) => panic!("failed: {}", error.message),
    }
}

#[test]
fn existence_statement() {
    let resolver = Resolver::begin("t", None).ok().unwrap();
    assert_eq!(resolver.existence_query(), "SHOW TABLES LIKE 't';");
    let resolver = Resolver::begin("db.events", Some("a:uint8")).ok().unwrap();
    assert_eq!(resolver.existence_query(), "SHOW TABLES LIKE 'db.events';");
}

#[test]
fn reply_shows_the_table_only_with_columns_and_rows() {
    assert!(found().table_exists());
    assert!(QueryReply::Answered { has_columns: true, row_count: Some(7) }.table_exists());
    assert!(!empty().table_exists());
    assert!(!QueryReply::Answered { has_columns: false, row_count: Some(1) }.table_exists());
    assert!(!QueryReply::Answered { has_columns: true, row_count: None }.table_exists());
    assert!(!QueryReply::Answered { has_columns: false, row_count: None }.table_exists());
    assert!(!QueryReply::Failed("connection refused".to_string()).table_exists());
}

#[test]
fn table_that_exists_is_used_bare() {
    let resolver = Resolver::begin("t", None).ok().unwrap();
    let target = ready(resolver.on_existence(&found()));
    assert_eq!(target.table(), "t");
    assert_eq!(target.reference(), "t");
}

#[test]
fn table_that_exists_ignores_the_schema() {
    let resolver = Resolver::begin("t", Some("a:uint8,b:uint64")).ok().unwrap();
    let target = ready(resolver.on_existence(&found()));
    assert_eq!(target.table(), "t");
    assert_eq!(target.reference(), "t");
}

#[test]
fn failed_check_without_schema_hands_the_cause_on() {
    for cause in ["connection refused", "error decoding response body", "table t not found", ""] {
        let resolver = Resolver::begin("t", None).ok().unwrap();
        match resolver.on_existence(&QueryReply::Failed(cause.to_string())) {
            Resolution::Failed(error) => {
                assert_eq!(error.kind, ErrorKind::ExistenceCheck);
                assert_eq!(error.message, cause);
                assert!(error.kind.is_fatal());
            }
            _ => panic!("the load should fail"),
        }
    }
}

#[test]
fn failed_check_with_schema_creates_the_table() {
    let resolver = Resolver::begin("t", Some("a:uint8")).ok().unwrap();
    match resolver.on_existence(&QueryReply::Failed("connection refused".to_string())) {
        Resolution::Create(creation) => {
            assert_eq!(creation.statement(), "CREATE TABLE t(a uint8) Engine = Fuse;")
        }
        _ => panic!("the table should be created"),
    }
}

#[test]
fn table_missing_without_schema_fails_the_load() {
    for reply in [
        empty(),
        QueryReply::Answered { has_columns: false, row_count: None },
        QueryReply::Answered { has_columns: true, row_count: None },
        QueryReply::Answered { has_columns: false, row_count: Some(3) },
    ] {
        let resolver = Resolver::begin("t", None).ok().unwrap();
        match resolver.on_existence(&reply) {
            Resolution::Failed(error) => {
                assert_eq!(error.kind, ErrorKind::TableNotFound);
                assert_eq!(error.message, "table t not found");
                assert!(error.kind.is_fatal());
            }
            _ => panic!("the load should fail"),
        }
    }
}

#[test]
fn table_missing_with_schema_is_created() {
    let resolver = Resolver::begin("t", Some("a:uint8,b:uint64")).ok().unwrap();
    let creation = match resolver.on_existence(&empty()) {
        Resolution::Create(creation) => creation,
        _ => panic!("the table should be created"),
    };
    assert_eq!(creation.statement(), "CREATE TABLE t(a uint8, b uint64) Engine = Fuse;");
    let target = creation.on_created(&QueryReply::Answered { has_columns: false, row_count: None }).ok().unwrap();
    assert_eq!(target.table(), "t");
    assert_eq!(target.reference(), "t (a, b)");
}

#[test]
fn creation_keeps_the_declared_order() {
    let resolver = Resolver::begin("t", Some("z:String, a:uint8")).ok().unwrap();
    let creation = match resolver.on_existence(&QueryReply::Failed("no".to_string())) {
        Resolution::Create(creation) => creation,
        _ => panic!("the table should be created"),
    };
    assert_eq!(creation.statement(), "CREATE TABLE t(z String, a uint8) Engine = Fuse;");
    let target = creation.on_created(&found()).ok().unwrap();
    assert_eq!(target.reference(), "t (z, a)");
}

#[test]
fn creation_that_fails_ends_the_load() {
    let resolver = Resolver::begin("t", Some("a:uint8")).ok().unwrap();
    let creation = match resolver.on_existence(&empty()) {
        Resolution::Create(creation) => creation,
        _ => panic!("the table should be created"),
    };
    let error = creation.on_created(&QueryReply::Failed("syntax error".to_string())).err().unwrap();
    assert_eq!(error.kind, ErrorKind::TableCreation);
    assert_eq!(error.message, "syntax error");
    assert!(error.kind.is_fatal());
}

#[test]
fn invalid_schema_fails_before_any_statement() {
    let error = Resolver::begin("t", Some("a:uint8,b")).err().unwrap();
    assert_eq!(error.kind, ErrorKind::InvalidSchema);
    assert_eq!(error.message, "t schema is not in valid format");
    assert!(error.kind.is_fatal());
    assert!(Resolver::begin("t", Some("")).is_err());
}

#[test]
fn existence_check_is_idempotent() {
    for reply in [found(), empty(), QueryReply::Failed("down".to_string())] {
        for schema in [None, Some("a:uint8")] {
            let first = Resolver::begin("t", schema).ok().unwrap().on_existence(&reply);
            let second = Resolver::begin("t", schema).ok().unwrap().on_existence(&reply);
            let same = match (first, second) {
                (Resolution::Ready(a), Resolution::Ready(b)) => a.reference() == b.reference(),
                (Resolution::Create(a), Resolution::Create(b)) => a.statement() == b.statement(),
                (Resolution::Failed(a), Resolution::Failed(b)) => a == b,
                _ => false,
            };
            assert!(same);
        }
    }
}
