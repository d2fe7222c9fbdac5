use knaaktomatisering::filter::{Bool, Filter, FilterFunction, FilterOp, Guid};

#[derive(Debug)]
enum TestKeys {
    Foo,
    Bar,
}

impl TestKeys {
    fn as_str(&self) -> &'static str {
        match self {
            TestKeys::Foo => "Foo",
            TestKeys::Bar => "Bar",
        }
    }
}

#[test]
fn guid() {
    let s = Filter::new(TestKeys::Foo.as_str(), Guid::new("Foo"), FilterOp::Equals).finalize();
    assert_eq!(s, "Foo+eq+guid'Foo'");
}

#[test]
fn eq() {
    let s = Filter::new(TestKeys::Bar.as_str(), "bar", FilterOp::Equals).finalize();
    assert_eq!(s, "Bar+eq+'bar'");
}

#[test]
fn ne() {
    let s = Filter::new(TestKeys::Bar.as_str(), "bar", FilterOp::NotEqual).finalize();
    assert_eq!(s, "Bar+ne+'bar'");
}

#[test]
fn and() {
    let s = Filter::new(TestKeys::Bar.as_str(), "bar", FilterOp::NotEqual)
        .and(TestKeys::Foo.as_str(), "foo", FilterOp::Equals)
        .finalize();
    assert_eq!(s, "Bar+ne+'bar'+and+Foo+eq+'foo'");
}

#[test]
fn or() {
    let s = Filter::new(TestKeys::Bar.as_str(), "bar", FilterOp::NotEqual)
        .or(TestKeys::Foo.as_str(), "foo", FilterOp::Equals)
        .finalize();
    assert_eq!(s, "Bar+ne+'bar'+or+Foo+eq+'foo'");
}

#[test]
fn join() {
    let s = Filter::new(TestKeys::Bar.as_str(), "bar", FilterOp::Equals)
        .join_and(&Filter::new(TestKeys::Foo.as_str(), "foo", FilterOp::NotEqual))
        .join_or(&Filter::new(TestKeys::Bar.as_str(), "baz", FilterOp::Equals))
        .finalize();
    assert_eq!(s, "(Bar+eq+'bar'+and+Foo+ne+'foo')+or+Bar+eq+'baz'");
}

#[test]
fn every_operator_has_its_token() {
    let cases = [
        (FilterOp::Equals, "K+eq+'v'"),
        (FilterOp::NotEqual, "K+ne+'v'"),
        (FilterOp::GreaterThan, "K+gt+'v'"),
        (FilterOp::GreatherThanEquals, "K+ge+'v'"),
        (FilterOp::LessThan, "K+lt+'v'"),
        (FilterOp::LessThanEquals, "K+le+'v'"),
    ];
    for (op, expected) in cases {
        assert_eq!(Filter::new("K", "v", op).finalize(), expected);
    }
}

#[test]
fn string_and_borrowed_guid_values() {
    let owned = String::from("x y");
    assert_eq!(Filter::new("Name", owned, FilterOp::Equals).finalize(), "Name+eq+'x y'");
    let id = Guid::new("abc-123");
    assert_eq!(Filter::new("ID", &id, FilterOp::Equals).finalize(), "ID+eq+guid'abc-123'");
    assert_eq!(id.to_string(), "guid'abc-123'");
    assert_eq!(id.as_str(), "abc-123");
}

#[test]
fn single_join_loses_its_parentheses() {
    let s = Filter::new("A", "1", FilterOp::Equals)
        .join_or(&Filter::new("B", "2", FilterOp::Equals))
        .finalize();
    assert_eq!(s, "A+eq+'1'+or+B+eq+'2'");
}

#[test]
fn join_followed_by_condition_keeps_parentheses() {
    let s = Filter::new("A", "1", FilterOp::Equals)
        .join_and(&Filter::new("B", "2", FilterOp::Equals))
        .and("C", "3", FilterOp::LessThan)
        .finalize();
    assert_eq!(s, "(A+eq+'1'+and+B+eq+'2')+and+C+lt+'3'");
}

#[test]
fn key_starting_with_parenthesis_is_kept() {
    let s = Filter::new("(A", "1", FilterOp::Equals).finalize();
    assert_eq!(s, "(A+eq+'1'");
}

#[test]
fn function_wraps_key() {
    let s = Filter::new("A", "1", FilterOp::Equals)
        .function("Name", FilterFunction::StartsWith("'Pre'".to_string()), FilterOp::Equals, "true")
        .finalize();
    assert_eq!(s, "A+eq+'1'+startswith(Name, 'Pre')+eq+'true'");
    let e = FilterFunction::EndsWith("x".to_string()).apply("K");
    assert_eq!(e, "endswith(K, x)");
    let sub = FilterFunction::SubstringOf("y".to_string()).apply("K");
    assert_eq!(sub, "substringof(K, y)");
}

#[test]
fn bool_text() {
    assert_eq!(Bool(true).to_string(), "true");
    assert_eq!(Bool(false).to_string(), "false");
}

#[test]
fn unmatched_outer_parenthesis_is_kept() {
    let s = Filter::new("x", "v", FilterOp::Equals)
        .join_or(&Filter::new("(y", "w", FilterOp::Equals))
        .finalize();
    assert_eq!(s, "(x+eq+'v'+or+(y+eq+'w')");
}

#[test]
fn nested_group_loses_only_its_outer_pair() {
    let inner = Filter::new("A", "1", FilterOp::Equals).join_or(&Filter::new("B", "2", FilterOp::Equals));
    let s = inner.join_and(&Filter::new("C", "3", FilterOp::Equals).join_or(&Filter::new("D", "4", FilterOp::Equals))).finalize();
    assert_eq!(s, "(A+eq+'1'+or+B+eq+'2')+and+(C+eq+'3'+or+D+eq+'4')");
}
