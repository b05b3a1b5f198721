use bambang::select::{parse_select, Columns, Condition, SelectQuery};

#[test]
fn select_star_parses() {
    let (rest, q) = parse_select("SELECT * FROM users;").expect("must parse");
    assert_eq!(rest, "");
    assert_eq!(
        q,
        SelectQuery { columns: Columns::All, table: "users".to_string(), condition: None }
    );
}

#[test]
fn select_columns_with_where_parses() {
    let (rest, q) = parse_select("SELECT id, name FROM users WHERE id = 5;").expect("must parse");
    assert_eq!(rest, "");
    assert_eq!(
        q,
        SelectQuery {
            columns: Columns::Named(vec!["id".to_string(), "name".to_string()]),
            table: "users".to_string(),
            condition: Some(Condition {
                column: "id".to_string(),
                operator: "=".to_string(),
                value: "5".to_string(),
            }),
        }
    );
}

#[test]
fn missing_from_fails() {
    assert!(parse_select("SELECT * users;").is_err());
}

#[test]
fn lowercase_keywords_parse() {
    let (rest, q) = parse_select("select * from T;").expect("must parse");
    assert_eq!(rest, "");
    assert_eq!(
        q,
        SelectQuery { columns: Columns::All, table: "T".to_string(), condition: None }
    );
}

#[test]
fn mixed_case_keywords_parse() {
    let (_, q) = parse_select("SeLeCt * FrOm tbl;").expect("must parse");
    assert_eq!(q.table, "tbl");
    assert_eq!(q.columns, Columns::All);
}

#[test]
fn identifiers_keep_their_case() {
    let (_, q) = parse_select("SELECT Id FROM Users;").expect("must parse");
    assert_eq!(q.columns, Columns::Named(vec!["Id".to_string()]));
    assert_eq!(q.table, "Users");
}

#[test]
fn parsing_twice_gives_equal_results() {
    let input = "SELECT id, name FROM users WHERE age > 21;";
    let first = parse_select(input).expect("must parse");
    let second = parse_select(input).expect("must parse");
    assert_eq!(first, second);
}

#[test]
fn greater_and_less_operators_parse() {
    let (_, q) = parse_select("SELECT * FROM t WHERE a > 10;").expect("must parse");
    assert_eq!(q.condition.unwrap().operator, ">");
    let (_, q) = parse_select("SELECT * FROM t WHERE a < 10;").expect("must parse");
    assert_eq!(q.condition.unwrap().operator, "<");
}

#[test]
fn non_alphanumeric_value_parses() {
    let (_, q) = parse_select("SELECT * FROM t WHERE name = @tag-7;").expect("must parse");
    let c = q.condition.unwrap();
    assert_eq!(c.column, "name");
    assert_eq!(c.value, "@tag-7");
}

#[test]
fn alphanumeric_value_stops_at_non_alphanumeric() {
    // the value rule prefers a letter-and-digit run, which ends before `-`
    let r = parse_select("SELECT * FROM t WHERE a = x-y;");
    assert!(r.is_err());
}

#[test]
fn trailing_text_is_left_unconsumed() {
    let (rest, q) = parse_select("SELECT * FROM t; tail text").expect("must parse");
    assert_eq!(rest, " tail text");
    assert_eq!(q.table, "t");
}

#[test]
fn spaces_before_semicolon_are_allowed() {
    let (rest, q) = parse_select("SELECT * FROM t   ;").expect("must parse");
    assert_eq!(rest, "");
    assert_eq!(q.table, "t");
}

#[test]
fn underscore_identifiers_parse() {
    let (_, q) = parse_select("SELECT _a, b_2 FROM my_table;").expect("must parse");
    assert_eq!(
        q.columns,
        Columns::Named(vec!["_a".to_string(), "b_2".to_string()])
    );
    assert_eq!(q.table, "my_table");
}

#[test]
fn missing_semicolon_fails() {
    assert!(parse_select("SELECT * FROM t").is_err());
}

#[test]
fn where_without_condition_fails() {
    assert!(parse_select("SELECT * FROM t WHERE;").is_err());
}

#[test]
fn empty_input_fails_with_reason() {
    let err = parse_select("").unwrap_err();
    assert_eq!(err.remaining, "");
    assert!(!err.reason.is_empty());
}

#[test]
fn failure_carries_unconsumed_input() {
    let err = parse_select("nonsense").unwrap_err();
    assert_eq!(err.remaining, "nonsense");
    assert_eq!(err.reason, "expected SELECT keyword");
}

#[test]
fn comma_separated_columns_allow_spaces_after_comma() {
    let (_, q) = parse_select("SELECT a,b,  c FROM t;").expect("must parse");
    assert_eq!(
        q.columns,
        Columns::Named(vec!["a".to_string(), "b".to_string(), "c".to_string()])
    );
}
