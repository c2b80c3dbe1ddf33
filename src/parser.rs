//! Extraction strategies: from a payload to one fact.
use vstd::prelude::*;
use crate::fetcher::Payload;
use crate::locator::{identity_view, locator_identity, resolve_locator, ParseError};
use crate::model::{Fact, FactView, SLOT_COUNT};
use crate::numeric::{parse_i32, parse_usize, remove_commas, signed_numeral, unsigned_numeral, without_commas};

verus! {

/// A selected markup element as plain values: the value of the attribute
/// that was asked for, if present, and the element's text.
pub type CellView = (Option<Seq<char>>, Seq<char>);

pub open spec fn cell_view(c: (Option<String>, String)) -> CellView {
    (
        match c.0 {
            Some(a) => Some(a@),
            None => None,
        },
        c.1@,
    )
}

pub open spec fn cells_view(v: Seq<(Option<String>, String)>) -> Seq<CellView> {
    v.map_values(|c: (Option<String>, String)| cell_view(c))
}

pub open spec fn cells_opt_view(v: Option<Vec<(Option<String>, String)>>) -> Option<Seq<CellView>> {
    match v {
        Some(w) => Some(cells_view(w@)),
        None => None,
    }
}

/// The elements of the document `html` that `selector` selects, in document
/// order, each with its `attribute` and its text; `None` where `selector`
/// is not a valid selector.
pub uninterp spec fn selected_cells(html: Seq<char>, selector: Seq<char>, attribute: Seq<char>) -> Option<Seq<CellView>>;

/// Relies on scraper: Selector::parse, Html::parse_document and Html::select
/// give the selected elements in document order; ElementRef::attr and
/// ElementRef::text give each one's attribute and text.
#[verifier::external_body]
fn select_cells(html: &str, selector: &str, attribute: &str) -> (r: Option<Vec<(Option<String>, String)>>)
    ensures
        cells_opt_view(r) == selected_cells(html@, selector@, attribute@),
{
    let selector = scraper::Selector::parse(selector).ok()?;
    let document = scraper::Html::parse_document(html);
    Some(
        document
            .select(&selector)
            .map(|e| (e.attr(attribute).map(|a| a.to_string()), e.text().collect::<Vec<_>>().join("")))
            .collect(),
    )
}

/// The selector of the cells that hold the two totals.
pub open spec fn totals_selector() -> Seq<char> {
    "td.t3n1[colspan]"@
}

pub open spec fn colspan_attribute() -> Seq<char> {
    "colspan"@
}

/// A total cell spans four columns, or does not say.
pub open spec fn is_total_cell(c: CellView) -> bool {
    c.0 matches Some(a) ==> a == seq!['4']
}

/// The total cells among `cells`, in order.
pub open spec fn total_cells(cells: Seq<CellView>) -> Seq<CellView>
    decreases cells.len(),
{
    if cells.len() == 0 {
        cells
    } else if is_total_cell(cells.last()) {
        total_cells(cells.drop_last()).push(cells.last())
    } else {
        total_cells(cells.drop_last())
    }
}

/// A thousands-separated `i32`.
pub open spec fn grouped_i32(s: Seq<char>) -> Option<int> {
    match signed_numeral(without_commas(s)) {
        Some(v) => if i32::MIN <= v <= i32::MAX {
            Some(v)
        } else {
            None
        },
        None => None,
    }
}

/// The `k`-th total, zero where there is none.
pub open spec fn total_at(totals: Seq<CellView>, k: int) -> Option<int> {
    if k < totals.len() {
        grouped_i32(totals[k].1)
    } else {
        Some(0)
    }
}

/// The buy total (the first total cell) less the sell total (the second).
pub open spec fn net_total(cells: Seq<CellView>) -> Result<int, ParseError> {
    let totals = total_cells(cells);
    match (total_at(totals, 0), total_at(totals, 1)) {
        (Some(buy), Some(sell)) => Ok(buy - sell),
        _ => Err(ParseError::InvalidNumber),
    }
}

/// The fact for a payload whose locator names `identity` and whose markup
/// gives `cells`.
pub open spec fn concentration_fact(
    identity: Result<(Seq<char>, int), ParseError>,
    cells: Option<Seq<CellView>>,
) -> Result<FactView, ParseError> {
    match identity {
        Err(e) => Err(e),
        Ok((id, slot)) => match cells {
            None => Err(ParseError::InvalidSelector),
            Some(c) => match net_total(c) {
                Ok(v) => Ok((id, slot, v)),
                Err(e) => Err(e),
            },
        },
    }
}

pub open spec fn fact_view(r: Result<Fact, ParseError>) -> Result<FactView, ParseError> {
    match r {
        Ok(f) => Ok(f@),
        Err(e) => Err(e),
    }
}

pub open spec fn int_view<T: Integer>(r: Result<T, ParseError>) -> Result<int, ParseError> {
    match r {
        Ok(v) => Ok(v as int),
        Err(e) => Err(e),
    }
}

proof fn lemma_total_cells_prefix(s: Seq<CellView>, j: int)
    requires
        0 <= j <= s.len(),
    ensures
        total_cells(s.take(j)).len() <= total_cells(s).len(),
        forall|k: int|
            0 <= k < total_cells(s.take(j)).len() ==> #[trigger] total_cells(s.take(j))[k]
                == total_cells(s)[k],
    decreases s.len(),
{
    if j < s.len() {
        assert(s.drop_last().take(j) =~= s.take(j));
        lemma_total_cells_prefix(s.drop_last(), j);
    } else {
        assert(s.take(j) =~= s);
    }
}

/// Parses a thousands-separated `i32`.
pub fn parse_grouped_i32(data: &str) -> (r: Option<i32>)
    ensures
        r is Some <==> grouped_i32(data@) is Some,
        r matches Some(v) ==> v == grouped_i32(data@)->0,
{
    let plain = remove_commas(data);
    parse_i32(plain.as_str())
}

/// The buy total less the sell total of the selected cells.
pub fn net_total_of(cells: &Vec<(Option<String>, String)>) -> (r: Result<i64, ParseError>)
    ensures
        int_view(r) == net_total(cells_view(cells@)),
{
    let ghost cv = cells_view(cells@);
    let n = cells.len();
    let mut index: usize = 0;
    let mut buy: i32 = 0;
    let mut sell: i32 = 0;
    let mut i: usize = 0;
    while i < n
        invariant
            n == cells@.len(),
            cv == cells_view(cells@),
            i <= n,
            index == total_cells(cv.take(i as int)).len(),
            index <= i,
            index >= 1 ==> total_at(total_cells(cv.take(i as int)), 0) == Some(buy as int),
            index == 0 ==> buy == 0,
            index >= 2 ==> total_at(total_cells(cv.take(i as int)), 1) == Some(sell as int),
            index <= 1 ==> sell == 0,
        decreases n - i,
    {
        let ghost before = total_cells(cv.take(i as int));
        let cell = &cells[i];
        assert(cv[i as int] == cell_view(*cell));
        assert(cv.take(i + 1).drop_last() =~= cv.take(i as int));
        let counted = match &cell.0 {
            Some(a) => {
                let four = a.unicode_len() == 1 && a.get_char(0) == '4';
                assert(four == (a@ == seq!['4'])) by {
                    if a@.len() == 1 && a@[0] == '4' {
                        assert(a@ =~= seq!['4']);
                    }
                }
                four
            },
            None => true,
        };
        if counted {
            let ghost after = total_cells(cv.take(i + 1));
            assert(after == before.push(cv[i as int]));
            if index < 2 {
                match parse_grouped_i32(cell.1.as_str()) {
                    Some(v) => {
                        if index == 0 {
                            buy = v;
                        } else {
                            sell = v;
                        }
                    },
                    None => {
                        proof {
                            lemma_total_cells_prefix(cv, i + 1);
                            assert(total_cells(cv)[index as int] == after[index as int]);
                        }
                        return Err(ParseError::InvalidNumber);
                    },
                }
            }
            index = index + 1;
        }
        i = i + 1;
    }
    assert(cv.take(n as int) =~= cv);
    Ok(buy as i64 - sell as i64)
}

/// Builds the fact from a resolved locator and the selected cells.
pub fn fact_from(
    identity: Result<(String, usize), ParseError>,
    cells: Option<Vec<(Option<String>, String)>>,
) -> (r: Result<Fact, ParseError>)
    ensures
        fact_view(r) == concentration_fact(identity_view(identity), cells_opt_view(cells)),
        r matches Ok(f) ==> (identity matches Ok(p) && f.slot_index == p.1),
{
    match identity {
        Err(e) => Err(e),
        Ok((entity_id, slot_index)) => match cells {
            None => Err(ParseError::InvalidSelector),
            Some(c) => match net_total_of(&c) {
                Ok(value) => Ok(Fact { entity_id, slot_index, value }),
                Err(e) => Err(e),
            },
        },
    }
}

/// A way of turning one input into one output.
pub trait ParseStrategy: Conversion {
    type Input;
    type Output;

    /// What `parse` gives for `input`.
    spec fn parses_to(&self, input: Self::Input, output: Result<Self::Output, ParseError>) -> bool;

    fn parse(&self, payload: Self::Input) -> (r: Result<Self::Output, ParseError>)
        ensures
            self.parses_to(payload, r),
    ;
}

/// Reading the numeric fields of a payload.
pub trait Conversion {
    fn to_i32(&self, data: &str) -> Result<i32, ParseError>;

    fn to_usize(&self, data: &str) -> Result<usize, ParseError>;
}

/// The strategy for daily closing prices, which no resource offers yet: it
/// always fails.
#[derive(Debug)]
pub struct DailyCloseStrategy;

impl ParseStrategy for DailyCloseStrategy {
    type Input = String;
    type Output = String;

    open spec fn parses_to(&self, input: String, output: Result<String, ParseError>) -> bool {
        output == Err::<String, ParseError>(ParseError::NotImplemented)
    }

    fn parse(&self, payload: String) -> (r: Result<String, ParseError>) {
        Err(ParseError::NotImplemented)
    }
}

impl Conversion for DailyCloseStrategy {
    fn to_i32(&self, data: &str) -> (r: Result<i32, ParseError>)
        ensures
            r == Err::<i32, ParseError>(ParseError::NotImplemented),
    {
        Err(ParseError::NotImplemented)
    }

    fn to_usize(&self, data: &str) -> (r: Result<usize, ParseError>)
        ensures
            r == Err::<usize, ParseError>(ParseError::NotImplemented),
    {
        Err(ParseError::NotImplemented)
    }
}

/// The strategy for buy/sell concentration pages: the locator names the
/// entity and the window, the markup holds a buy total and a sell total.
#[derive(Debug)]
pub struct ConcentrationStrategy;

impl ConcentrationStrategy {
    /// The entity id and slot index that `url` names.
    pub fn identifier(&self, url: &str) -> (r: Result<(String, usize), ParseError>)
        ensures
            identity_view(r) == locator_identity(url@),
            r matches Ok((_, slot)) ==> slot < SLOT_COUNT,
    {
        resolve_locator(url)
    }
}

impl ParseStrategy for ConcentrationStrategy {
    type Input = Payload;
    type Output = Fact;

    open spec fn parses_to(&self, input: Payload, output: Result<Fact, ParseError>) -> bool {
        &&& fact_view(output) == concentration_fact(
            locator_identity(input.source@),
            selected_cells(input.content@, totals_selector(), colspan_attribute()),
        )
        &&& output matches Ok(f) ==> f.slot_index < SLOT_COUNT
    }

    fn parse(&self, payload: Payload) -> (r: Result<Fact, ParseError>) {
        let identity = self.identifier(payload.source.as_str());
        let selector = "td.t3n1[colspan]";
        let attribute = "colspan";
        assert(selector@ == totals_selector());
        assert(attribute@ == colspan_attribute());
        let cells = match identity {
            Ok(_) => select_cells(payload.content.as_str(), selector, attribute),
            Err(_) => None,
        };
        fact_from(identity, cells)
    }
}

impl Conversion for ConcentrationStrategy {
    fn to_i32(&self, data: &str) -> (r: Result<i32, ParseError>)
        ensures
            int_view(r) == match grouped_i32(data@) {
                Some(v) => Ok(v),
                None => Err(ParseError::InvalidNumber),
            },
    {
        match parse_grouped_i32(data) {
            Some(v) => Ok(v),
            None => Err(ParseError::InvalidNumber),
        }
    }

    fn to_usize(&self, data: &str) -> (r: Result<usize, ParseError>)
        ensures
            int_view(r) == match unsigned_numeral(data@) {
                Some(v) => if v <= usize::MAX {
                    Ok(v)
                } else {
                    Err(ParseError::InvalidNumber)
                },
                None => Err(ParseError::InvalidNumber),
            },
    {
        match parse_usize(data) {
            Some(v) => Ok(v),
            None => Err(ParseError::InvalidNumber),
        }
    }
}

/// Runs one strategy over every input of a run.
#[derive(Debug)]
pub struct Parser<T: ParseStrategy> {
    strategy: T,
}

impl<T: ParseStrategy> Parser<T> {
    pub closed spec fn strategy(&self) -> T {
        self.strategy
    }

    pub fn new(strategy: T) -> (r: Self)
        ensures
            r.strategy() == strategy,
    {
        Self { strategy }
    }

    pub fn parse(&self, payload: T::Input) -> (r: Result<T::Output, ParseError>)
        ensures
            self.strategy().parses_to(payload, r),
    {
        self.strategy.parse(payload)
    }
}

} // verus!
