//! A SQL dialect whose identifiers may be URLs, so a query can name a
//! remote table by its address.
use vstd::prelude::*;

verus! {

#[derive(Debug, Default)]
pub struct TryDialect;

pub open spec fn is_letter(ch: char) -> bool {
    ('a' <= ch && ch <= 'z') || ('A' <= ch && ch <= 'Z')
}

/// The punctuation a URL needs inside an identifier.
pub open spec fn is_url_punctuation(ch: char) -> bool {
    ch == ':' || ch == '/' || ch == '?' || ch == '&' || ch == '=' || ch == '-' || ch == '_' || ch == '.'
}

impl TryDialect {
    /// An identifier starts with an ASCII letter or `_`.
    pub fn is_identifier_start(&self, ch: char) -> (r: bool)
        ensures
            r == (is_letter(ch) || ch == '_'),
    {
        ('a' <= ch && ch <= 'z') || ('A' <= ch && ch <= 'Z') || ch == '_'
    }

    /// An identifier continues with ASCII letters and digits and URL
    /// punctuation.
    pub fn is_identifier_part(&self, ch: char) -> (r: bool)
        ensures
            r == (is_letter(ch) || ('0' <= ch && ch <= '9') || is_url_punctuation(ch)),
    {
        ('a' <= ch && ch <= 'z') || ('A' <= ch && ch <= 'Z') || ('0' <= ch && ch <= '9') || ch == ':'
            || ch == '/' || ch == '?' || ch == '&' || ch == '=' || ch == '-' || ch == '_' || ch == '.'
    }
}

pub open spec fn example_query_head() -> Seq<char> {
    "SELECT location name, total_cases, new_cases, total_deaths, new_deaths FROM "@
}

pub open spec fn example_table() -> Seq<char> {
    "https://raw.githubusercontent.com/owid/covid-19-data/master/public/data/latest/owid-covid-latest.csv"@
}

pub open spec fn example_query_tail() -> Seq<char> {
    " where new_deaths >= 500 ORDER BY new_cases DESC LIMIT 6 OFFSET 5"@
}

/// A query over a remote CSV table named by its URL.
pub fn example_sql() -> (r: String)
    ensures
        r@ == example_query_head() + example_table() + example_query_tail(),
{
    let url = "https://raw.githubusercontent.com/owid/covid-19-data/master/public/data/latest/owid-covid-latest.csv";
    let mut sql = String::from_str("SELECT location name, total_cases, new_cases, total_deaths, new_deaths FROM ");
    sql.append(url);
    sql.append(" where new_deaths >= 500 ORDER BY new_cases DESC LIMIT 6 OFFSET 5");
    sql
}

} // verus!
