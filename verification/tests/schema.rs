use bulk_load::schema::Schema;

const INVALID: &str = "not a valid schema, please input schema in format like a:uint8,b:uint64";

fn render(text: &str) -> String {
    match Schema::from_str(text) {
        Ok(schema) => schema.to_string(),
        Err(message) => panic!("{:?} was rejected: {}", text, message),
    }
}

fn rejected(text: &str) -> bool {
    match Schema::from_str(text) {
        Ok(_) => false,
        Err(message) => {
            assert_eq!(message, INVALID);
            true
        }
    }
}

#[test]
fn schema_renders_in_declaration_order() {
    assert_eq!(render("a:uint8,b:uint64"), "a uint8, b uint64");
    assert_eq!(render("b:uint64,a:uint8"), "b uint64, a uint8");
    assert_eq!(render("zeta:String, alpha:uint8, mid:uint64"), "zeta String, alpha uint8, mid uint64");
}

#[test]
fn schema_round_trip_of_two_declarations() {
    let schema = Schema::from_str("n1:t1, n2:t2").ok().unwrap();
    assert_eq!(schema.len(), 2);
    assert_eq!(schema.to_string(), "n1 t1, n2 t2");
    assert_eq!(schema.column_names(), "n1, n2");
}

#[test]
fn schema_of_one_column() {
    let schema = Schema::from_str("a:uint8").ok().unwrap();
    assert_eq!(schema.len(), 1);
    assert_eq!(schema.to_string(), "a uint8");
    assert_eq!(schema.column_names(), "a");
}

#[test]
fn schema_ignores_whitespace_wherever_it_stands() {
    assert_eq!(render(" a : uint8 ,\tb:uint64 "), "a uint8, b uint64");
    assert_eq!(render("a b:u int8"), "ab uint8");
    assert_eq!(render("a:uint8,\nb:uint64"), "a uint8, b uint64");
}

#[test]
fn schema_skips_empty_stretches_between_colons() {
    assert_eq!(render("a::uint8"), "a uint8");
    assert_eq!(render(":a:uint8:"), "a uint8");
}

#[test]
fn schema_rejects_fields_without_two_tokens() {
    assert!(rejected(""));
    assert!(rejected("   "));
    assert!(rejected("a"));
    assert!(rejected("a:"));
    assert!(rejected(":uint8"));
    assert!(rejected("a:b:c"));
    assert!(rejected("a:uint8,"));
    assert!(rejected(",a:uint8"));
    assert!(rejected("a:uint8,,b:uint64"));
    assert!(rejected("a:uint8,b"));
    assert!(rejected("a uint8"));
}

#[test]
fn schema_later_declaration_of_a_name_wins_in_place() {
    let schema = Schema::from_str("a:uint8,b:String,a:uint64").ok().unwrap();
    assert_eq!(schema.len(), 2);
    assert_eq!(schema.to_string(), "a uint64, b String");
    assert_eq!(schema.column_names(), "a, b");
}

#[test]
fn schema_names_are_case_sensitive() {
    let schema = Schema::from_str("a:uint8,A:uint64").ok().unwrap();
    assert_eq!(schema.len(), 2);
    assert_eq!(schema.column_names(), "a, A");
}
