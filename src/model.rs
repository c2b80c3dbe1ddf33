//! The values that flow through a run: extracted facts and per-entity
//! records, and the trading calendar that lookback windows are counted in.
use vstd::prelude::*;
use vstd::arithmetic::div_mod::lemma_mod_multiples_vanish;
use chrono::Datelike;

verus! {

/// Positions in an entity's record, one per usable lookback window.
pub const SLOT_COUNT: usize = 5;

/// One extracted data point: `value` for slot `slot_index` of `entity_id`.
pub struct Fact {
    pub entity_id: String,
    pub slot_index: usize,
    pub value: i64,
}

/// A fact as plain values: entity, slot, value.
pub type FactView = (Seq<char>, int, int);

impl Fact {
    pub open spec fn view(&self) -> FactView {
        (self.entity_id@, self.slot_index as int, self.value as int)
    }
}

/// The accumulated record of one entity: one value per slot, stamped with
/// the run's as-of date.
pub struct Model {
    pub stock_id: String,
    pub exchange_date: String,
    pub concentration: Vec<i64>,
}

/// The day number of the date that `s` spells in the `strftime`-style
/// `format`, 1 January of year 1 being day 1; `None` where `s` spells no
/// date in `format`.
pub uninterp spec fn date_number(s: Seq<char>, format: Seq<char>) -> Option<int>;

/// Relies on chrono::NaiveDate::parse_from_str and Datelike::num_days_from_ce
/// (1 January of year 1 is day 1).
#[verifier::external_body]
fn parse_day_number(s: &str, format: &str) -> (r: Option<i32>)
    ensures
        match r {
            Some(d) => date_number(s@, format@) == Some(d as int),
            None => date_number(s@, format@) is None,
        },
{
    chrono::NaiveDate::parse_from_str(s, format).ok().map(|d| d.num_days_from_ce())
}

pub open spec fn date_format() -> Seq<char> {
    "%Y%m%d"@
}

/// The days on which the exchange is closed although they are weekdays.
pub open spec fn closed_days() -> Seq<Option<int>> {
    seq![date_number("20231010"@, date_format()), date_number("20231008"@, date_format())]
}

/// The day of the week of day `d`, Monday being 0: day 1 was a Monday.
pub open spec fn weekday_from_monday(d: int) -> int {
    (d - 1) % 7
}

/// Day `d` is a trading day: a weekday, and not a closed day.
pub open spec fn is_trading_day(d: int) -> bool {
    &&& weekday_from_monday(d) < 5
    &&& forall|j: int| 0 <= j < closed_days().len() ==> closed_days()[j] != Some(d)
}

/// The number of trading days from day `lo` up to, not including, day `hi`.
pub open spec fn trading_days_in(lo: int, hi: int) -> nat
    decreases hi - lo,
{
    if hi <= lo {
        0
    } else {
        trading_days_in(lo, hi - 1) + if is_trading_day(hi - 1) {
            1nat
        } else {
            0nat
        }
    }
}

/// The lookback periods, in days before the end date, of the slots.
pub open spec fn look_back_periods() -> Seq<int> {
    seq![0int, 4, 9, 19, 59]
}

/// The number of trading days in the `look_back` days before the date that
/// `end_date` spells, that date included.
pub open spec fn trading_days_back(end_date: Seq<char>, look_back: int) -> Option<nat> {
    match date_number(end_date, date_format()) {
        Some(e) => Some(trading_days_in(e - look_back, e + 1)),
        None => None,
    }
}

fn weekday_of(d: i64) -> (r: i64)
    requires
        d >= -6_999_999_999,
        d <= 7_000_000_000,
    ensures
        r == weekday_from_monday(d as int),
{
    let r = (d - 1 + 7_000_000_000) % 7;
    proof {
        lemma_mod_multiples_vanish(1_000_000_000, d - 1, 7);
    }
    r
}

impl Model {
    /// The slot values as integers.
    pub open spec fn slots(&self) -> Seq<int> {
        self.concentration@.map_values(|v: i64| v as int)
    }

    pub open spec fn wf(&self) -> bool {
        self.concentration@.len() == SLOT_COUNT
    }

    /// The number of trading days in the `look_back_days` days before
    /// `end_date` (written `YYYYMMDD`), that day included; `None` where
    /// `end_date` is no such date.
    pub fn total_trade_days(end_date: &str, look_back_days: u32) -> (r: Option<u64>)
        ensures
            match r {
                Some(n) => trading_days_back(end_date@, look_back_days as int) == Some(n as nat),
                None => trading_days_back(end_date@, look_back_days as int) is None,
            },
    {
        let format = "%Y%m%d";
        assert(format@ == date_format());
        let end = match parse_day_number(end_date, format) {
            Some(e) => e as i64,
            None => return None,
        };
        let closed_a = parse_day_number("20231010", format);
        let closed_b = parse_day_number("20231008", format);
        let start = end - look_back_days as i64;
        let mut day = start;
        let mut count: u64 = 0;
        while day <= end
            invariant
                i32::MIN <= end <= i32::MAX,
                start == end - look_back_days,
                start <= day <= end + 1,
                count == trading_days_in(start as int, day as int),
                count <= day - start,
                closed_a matches Some(a) ==> closed_days()[0] == Some(a as int),
                closed_a is None ==> closed_days()[0] is None,
                closed_b matches Some(b) ==> closed_days()[1] == Some(b as int),
                closed_b is None ==> closed_days()[1] is None,
            decreases end + 1 - day,
        {
            let weekday = weekday_of(day);
            let closed = match closed_a {
                Some(a) => a as i64 == day,
                None => false,
            } || match closed_b {
                Some(b) => b as i64 == day,
                None => false,
            };
            proof {
                assert(closed_days().len() == 2);
                if !closed {
                    assert forall|j: int| 0 <= j < closed_days().len() implies closed_days()[j] != Some(
                        day as int,
                    ) by {
                        if j == 0 {
                        } else {
                            assert(j == 1);
                        }
                    }
                }
            }
            if weekday < 5 && !closed {
                count = count + 1;
            }
            day = day + 1;
        }
        Some(count)
    }

    /// The trading-day counts of the lookback periods of the slots, ending
    /// on `end_date`.
    pub fn trade_days(end_date: &str) -> (r: Option<[u64; 5]>)
        ensures
            match r {
                Some(a) => date_number(end_date@, date_format()) is Some && forall|i: int|
                    0 <= i < 5 ==> trading_days_back(end_date@, look_back_periods()[i]) == Some(
                        #[trigger] a@[i] as nat,
                    ),
                None => date_number(end_date@, date_format()) is None,
            },
    {
        let count0 = Model::total_trade_days(end_date, 0);
        let count1 = Model::total_trade_days(end_date, 4);
        let count2 = Model::total_trade_days(end_date, 9);
        let count3 = Model::total_trade_days(end_date, 19);
        let count4 = Model::total_trade_days(end_date, 59);
        match (count0, count1, count2, count3, count4) {
            (Some(a), Some(b), Some(c), Some(d), Some(e)) => {
                let r = [a, b, c, d, e];
                assert(r@[0] == a && r@[1] == b && r@[2] == c && r@[3] == d && r@[4] == e);
                Some(r)
            },
            _ => None,
        }
    }

    /// A record for `stock_id` with every slot zero.
    pub fn new(stock_id: String, exchange_date: String) -> (r: Model)
        ensures
            r.stock_id@ == stock_id@,
            r.exchange_date@ == exchange_date@,
            r.slots() == zero_slots(),
            r.wf(),
    {
        let concentration = vec![0i64; SLOT_COUNT];
        let r = Model { stock_id, exchange_date, concentration };
        assert(r.slots() =~= zero_slots());
        r
    }
}

/// `SLOT_COUNT` zeros.
pub open spec fn zero_slots() -> Seq<int> {
    Seq::new(SLOT_COUNT as nat, |k: int| 0int)
}

} // verus!
