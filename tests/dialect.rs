use crawler::dialect::{example_sql, TryDialect};
use sqlparser::dialect::Dialect;
use sqlparser::parser::Parser;

#[derive(Debug)]
struct UrlDialect(TryDialect);

impl Dialect for UrlDialect {
    fn is_identifier_start(&self, ch: char) -> bool {
        self.0.is_identifier_start(ch)
    }

    fn is_identifier_part(&self, ch: char) -> bool {
        self.0.is_identifier_part(ch)
    }
}

#[test]
fn it_works() {
    assert!(Parser::parse_sql(&UrlDialect(TryDialect), &example_sql()).is_ok());
}

#[test]
fn identifier_classes() {
    let d = TryDialect;
    assert!(d.is_identifier_start('a'));
    assert!(d.is_identifier_start('Z'));
    assert!(d.is_identifier_start('_'));
    assert!(!d.is_identifier_start('1'));
    assert!(!d.is_identifier_start(':'));
    assert!(d.is_identifier_part('9'));
    for ch in [':', '/', '?', '&', '=', '-', '_', '.'] {
        assert!(d.is_identifier_part(ch));
    }
    assert!(!d.is_identifier_part(' '));
    assert!(!d.is_identifier_part('é'));
}

#[test]
fn example_sql_text() {
    assert_eq!(
        example_sql(),
        "SELECT location name, total_cases, new_cases, total_deaths, new_deaths FROM https://raw.githubusercontent.com/owid/covid-19-data/master/public/data/latest/owid-covid-latest.csv where new_deaths >= 500 ORDER BY new_cases DESC LIMIT 6 OFFSET 5"
    );
}
