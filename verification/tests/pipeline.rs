use bulk_load::error::ErrorKind;
use bulk_load::loader::{statement_for, statement_for_values, statements, LoadReport, Loader};
use bulk_load::reply::{BatchOutcome, QueryReply};
use bulk_load::request::LoadRequest;
use bulk_load::resolver::{Resolution, Resolver, Target};
use bulk_load::source::SourceSpec;
use bulk_load::statement::{column_reference, creation_statement, diagnostic, existence_query, insert_statement};
use bulk_load::transform::{fragment, join_pair, transform};

fn ok() -> QueryReply {
    QueryReply::Answered { has_columns: false, row_count: None }
}

fn shown() -> QueryReply {
    QueryReply::Answered { has_columns: true, row_count: Some(1) }
}

fn target(table: &str) -> Target {
    match Resolver::begin(table, None).ok().unwrap().on_existence(&shown()) {
        Resolution::Ready(target) => target,
        _ => panic!("the table is there"),
    }
}

fn strings(lines: &[&str]) -> Vec<String> {
    lines.iter().map(|line| line.to_string()).collect()
}

/// The fragments of an insert statement for `table_ref`, sorted.
fn fragments_in(statement: &str, table_ref: &str) -> Vec<String> {
    let head = format!("INSERT INTO {} VALUES ", table_ref);
    assert!(statement.starts_with(&head), "{}", statement);
    assert!(statement.ends_with(';'), "{}", statement);
    let list = &statement[head.len()..statement.len() - 1];
    let mut fragments: Vec<String> = list.split("), (").map(String::from).collect();
    let last = fragments.len() - 1;
    for (i, fragment) in fragments.iter_mut().enumerate() {
        if i > 0 {
            fragment.insert(0, '(');
        }
        if i < last {
            fragment.push(')');
        }
    }
    fragments.sort();
    fragments
}

#[test]
fn statement_texts() {
    assert_eq!(existence_query("t"), "SHOW TABLES LIKE 't';");
    assert_eq!(creation_statement("t", "a uint8, b uint64"), "CREATE TABLE t(a uint8, b uint64) Engine = Fuse;");
    assert_eq!(column_reference("t", "a, b"), "t (a, b)");
    assert_eq!(insert_statement("t", "(1,a), (2,b)"), "INSERT INTO t VALUES (1,a), (2,b);");
    assert_eq!(insert_statement("t (a, b)", "(1,a)"), "INSERT INTO t (a, b) VALUES (1,a);");
    assert_eq!(diagnostic("t", "timeout"), "cannot insert data into t, error: timeout");
}

#[test]
fn fragment_wraps_the_trimmed_line() {
    assert_eq!(fragment("1,a"), Some("(1,a)".to_string()));
    assert_eq!(fragment("  1, a \r"), Some("(1, a)".to_string()));
    assert_eq!(fragment("'x', \"y\""), Some("('x', \"y\")".to_string()));
    assert_eq!(fragment(""), None);
    assert_eq!(fragment(" \t "), None);
}

#[test]
fn pair_of_value_lists() {
    assert_eq!(join_pair("(1,a)".to_string(), "(2,b)".to_string()), "(1,a), (2,b)");
}

#[test]
fn transform_of_one_line() {
    assert_eq!(transform(strings(&[" 1,a "])), Some("(1,a)".to_string()));
    assert_eq!(transform(strings(&["", "2,b", "  "])), Some("(2,b)".to_string()));
}

#[test]
fn transform_of_blank_lines_is_nothing() {
    assert_eq!(transform(Vec::new()), None);
    assert_eq!(transform(strings(&["", "  ", "\t"])), None);
}

#[test]
fn transform_keeps_every_fragment_once() {
    let lines: Vec<String> = (0..500).map(|i| if i % 7 == 0 { "  ".to_string() } else { format!(" {},v{} ", i, i) }).collect();
    let list = transform(lines).unwrap();
    let mut got: Vec<String> = list.split(", ").map(String::from).collect();
    got.sort();
    let mut expected: Vec<String> = (0..500).filter(|i| i % 7 != 0).map(|i| format!("({},v{})", i, i)).collect();
    expected.sort();
    assert_eq!(got, expected);
}

#[test]
fn statement_for_a_value_list() {
    assert_eq!(statement_for_values("t", Some("(1,a), (2,b)".to_string())), Some("INSERT INTO t VALUES (1,a), (2,b);".to_string()));
    assert_eq!(statement_for_values("t", None), None);
}

#[test]
fn statement_for_a_batch() {
    assert_eq!(statement_for("t", strings(&["1,a"])), Some("INSERT INTO t VALUES (1,a);".to_string()));
    assert_eq!(statement_for("t", strings(&["", " "])), None);
    assert_eq!(statement_for("t", Vec::new()), None);
    let statement = statement_for("t (a, b)", strings(&["1,a", "", "2,b"])).unwrap();
    assert_eq!(fragments_in(&statement, "t (a, b)"), vec!["(1,a)", "(2,b)"]);
}

#[test]
fn existing_table_takes_one_insert() {
    let resolver = Resolver::begin("t", None).ok().unwrap();
    assert_eq!(resolver.existence_query(), "SHOW TABLES LIKE 't';");
    let target = match resolver.on_existence(&shown()) {
        Resolution::Ready(target) => target,
        _ => panic!("the table is there"),
    };
    let mut loader = Loader::new(target, 0, 100_000);
    assert_eq!(loader.on_line("1,a".to_string()), None);
    assert_eq!(loader.on_line("2,b".to_string()), None);
    assert_eq!(loader.on_line("3,c".to_string()), None);
    let statement = loader.on_end().unwrap();
    let all = ["INSERT INTO t VALUES (1,a), (2,b), (3,c);", "INSERT INTO t VALUES (1,a), (3,c), (2,b);",
        "INSERT INTO t VALUES (2,b), (1,a), (3,c);", "INSERT INTO t VALUES (2,b), (3,c), (1,a);",
        "INSERT INTO t VALUES (3,c), (1,a), (2,b);", "INSERT INTO t VALUES (3,c), (2,b), (1,a);"];
    assert!(all.contains(&statement.as_str()), "{}", statement);
    assert_eq!(loader.on_reply(&ok()), None);
    assert_eq!(loader.on_end(), None);
    let report = loader.finish();
    assert_eq!(report.dispatched(), 1);
    assert_eq!(report.failed(), 0);
    assert!(!report.completed_with_errors());
}

#[test]
fn nothing_is_read_when_the_table_is_missing() {
    let request = LoadRequest::new(SourceSpec::Stdin, "t".to_string());
    let resolver = request.resolver().ok().unwrap();
    match resolver.on_existence(&QueryReply::Answered { has_columns: true, row_count: Some(0) }) {
        Resolution::Failed(error) => assert_eq!(error.kind, ErrorKind::TableNotFound),
        _ => panic!("the load should fail"),
    }
}

#[test]
fn batches_go_to_the_created_table() {
    let request = LoadRequest::new(SourceSpec::Stdin, "t".to_string()).with_schema("a:uint8,b:uint64".to_string());
    let resolver = request.resolver().ok().unwrap();
    let creation = match resolver.on_existence(&QueryReply::Answered { has_columns: false, row_count: None }) {
        Resolution::Create(creation) => creation,
        _ => panic!("the table should be created"),
    };
    assert_eq!(creation.statement(), "CREATE TABLE t(a uint8, b uint64) Engine = Fuse;");
    let target = creation.on_created(&ok()).ok().unwrap();
    let mut loader = request.with_batch_size(1).loader(target);
    assert_eq!(loader.on_line("1,2".to_string()), Some("INSERT INTO t (a, b) VALUES (1,2);".to_string()));
    assert_eq!(loader.on_line("3,4".to_string()), Some("INSERT INTO t (a, b) VALUES (3,4);".to_string()));
    assert_eq!(loader.on_end(), None);
}

#[test]
fn only_lines_behind_the_header_are_sent() {
    let mut loader = Loader::new(target("t"), 2, 100_000);
    for line in ["id,name", "--,--", "1,a", "2,b", "3,c"] {
        assert_eq!(loader.on_line(line.to_string()), None);
    }
    let statement = loader.on_end().unwrap();
    assert_eq!(fragments_in(&statement, "t"), vec!["(1,a)", "(2,b)", "(3,c)"]);
    let whole = statements(&target("t"), strings(&["id,name", "--,--", "1,a", "2,b", "3,c"]), 2, 100_000);
    assert_eq!(whole.len(), 1);
    assert_eq!(fragments_in(&whole[0], "t"), vec!["(1,a)", "(2,b)", "(3,c)"]);
}

#[test]
fn failed_batch_does_not_stop_the_load() {
    let mut loader = Loader::new(target("t"), 0, 1);
    assert_eq!(loader.on_line("1,a".to_string()), Some("INSERT INTO t VALUES (1,a);".to_string()));
    assert_eq!(loader.on_reply(&ok()), None);
    assert_eq!(loader.on_line("2,b".to_string()), Some("INSERT INTO t VALUES (2,b);".to_string()));
    assert_eq!(
        loader.on_reply(&QueryReply::Failed("connection reset".to_string())),
        Some("cannot insert data into t, error: connection reset".to_string())
    );
    assert_eq!(loader.on_line("3,c".to_string()), Some("INSERT INTO t VALUES (3,c);".to_string()));
    assert_eq!(loader.on_reply(&ok()), None);
    assert_eq!(loader.on_end(), None);
    let report = loader.finish();
    assert_eq!(report.dispatched(), 3);
    assert_eq!(report.failed(), 1);
    assert!(report.completed_with_errors());
}

#[test]
fn header_longer_than_source_is_no_error() {
    let mut loader = Loader::new(target("t"), 5, 2);
    for line in ["1,a", "2,b", "3,c"] {
        assert_eq!(loader.on_line(line.to_string()), None);
    }
    assert_eq!(loader.on_end(), None);
    let report = loader.finish();
    assert_eq!(report.dispatched(), 0);
    assert!(!report.completed_with_errors());
    assert_eq!(statements(&target("t"), strings(&["1,a", "2,b", "3,c"]), 3, 2), Vec::<String>::new());
    assert_eq!(statements(&target("t"), strings(&["1,a", "2,b", "3,c"]), 9, 2), Vec::<String>::new());
}

#[test]
fn blank_batch_is_dropped() {
    let mut loader = Loader::new(target("t"), 0, 2);
    assert_eq!(loader.on_line("".to_string()), None);
    assert_eq!(loader.on_line("   ".to_string()), None);
    assert_eq!(loader.on_line("\t".to_string()), None);
    assert_eq!(loader.on_end(), None);
    assert_eq!(loader.finish().dispatched(), 0);
}

#[test]
fn statement_count_is_batches_less_blank_ones() {
    let lines = strings(&["1,a", "2,b", "", " ", "3,c", "", "\t", "", "4,d"]);
    let out = statements(&target("t"), lines, 0, 2);
    assert_eq!(out.len(), 5 - 2);
    assert_eq!(fragments_in(&out[0], "t"), vec!["(1,a)", "(2,b)"]);
    assert_eq!(out[1], "INSERT INTO t VALUES (3,c);");
    assert_eq!(out[2], "INSERT INTO t VALUES (4,d);");
}

#[test]
fn statements_come_in_source_order() {
    let lines: Vec<String> = (0..10).map(|i| format!("{},x", i)).collect();
    let out = statements(&target("t"), lines, 1, 3);
    assert_eq!(out.len(), 3);
    assert_eq!(fragments_in(&out[0], "t"), vec!["(1,x)", "(2,x)", "(3,x)"]);
    assert_eq!(fragments_in(&out[1], "t"), vec!["(4,x)", "(5,x)", "(6,x)"]);
    assert_eq!(fragments_in(&out[2], "t"), vec!["(7,x)", "(8,x)", "(9,x)"]);
}

#[test]
fn outcome_of_a_reply() {
    assert_eq!(BatchOutcome::of_reply(&ok()), BatchOutcome::Acknowledged);
    assert_eq!(BatchOutcome::of_reply(&shown()), BatchOutcome::Acknowledged);
    let failed = BatchOutcome::of_reply(&QueryReply::Failed("timeout".to_string()));
    assert_eq!(failed, BatchOutcome::Failed("timeout".to_string()));
    assert_eq!(failed.diagnostic("t"), Some("cannot insert data into t, error: timeout".to_string()));
    assert_eq!(BatchOutcome::Acknowledged.diagnostic("t"), None);
    let error = failed.error().unwrap();
    assert_eq!(error.kind, ErrorKind::Dispatch);
    assert_eq!(error.message, "timeout");
    assert!(!error.kind.is_fatal());
    assert_eq!(BatchOutcome::Acknowledged.error(), None);
}

#[test]
fn report_counts_outcomes() {
    let mut report = LoadReport::new();
    assert_eq!(report.dispatched(), 0);
    assert_eq!(report.failed(), 0);
    report.record(BatchOutcome::Acknowledged);
    report.record(BatchOutcome::Failed("a".to_string()));
    report.record(BatchOutcome::Failed("b".to_string()));
    assert_eq!(report.dispatched(), 3);
    assert_eq!(report.failed(), 2);
    assert!(report.completed_with_errors());
}

#[test]
fn request_defaults_and_builders() {
    let request = LoadRequest::new(SourceSpec::LocalPath("foo.csv".to_string()), "t".to_string());
    assert_eq!(request.source(), &SourceSpec::LocalPath("foo.csv".to_string()));
    assert_eq!(request.target_table(), "t");
    assert_eq!(request.header_skip_count(), 0);
    assert_eq!(request.batch_size(), 100_000);
    let request = request.with_header_skip(10).with_batch_size(5).with_schema("a:uint8".to_string());
    assert_eq!(request.header_skip_count(), 10);
    assert_eq!(request.batch_size(), 5);
    assert!(request.resolver().is_ok());
    let bad = LoadRequest::new(SourceSpec::Stdin, "t".to_string()).with_schema("a".to_string());
    let error = bad.resolver().err().unwrap();
    assert_eq!(error.kind, ErrorKind::InvalidSchema);
}

#[test]
fn stream_failure_is_fatal() {
    let error = bulk_load::error::LoadError::stream("unexpected end of file".to_string());
    assert_eq!(error.kind, ErrorKind::Stream);
    assert_eq!(error.message, "unexpected end of file");
    assert!(error.kind.is_fatal());
}
