//! A record's slots computed from a raw daily series: the net values summed
//! back from the end date over each lookback period.
use vstd::prelude::*;
use crate::model::{date_format, date_number, look_back_periods, trading_days_back, trading_days_in, Model};
use crate::numeric::{parse_i32, signed_numeral};

verus! {

broadcast use vstd::array::group_array_axioms;

/// `c` is white space in Unicode's sense.
pub open spec fn is_white(c: char) -> bool {
    let x = c as int;
    (0x9 <= x <= 0xd) || x == 0x20 || x == 0x85 || x == 0xa0 || x == 0x1680 || (0x2000 <= x <= 0x200a)
        || x == 0x2028 || x == 0x2029 || x == 0x202f || x == 0x205f || x == 0x3000
}

fn white(c: char) -> (r: bool)
    ensures
        r == is_white(c),
{
    let x = c as u32;
    (0x9 <= x && x <= 0xd) || x == 0x20 || x == 0x85 || x == 0xa0 || x == 0x1680 || (0x2000 <= x && x
        <= 0x200a) || x == 0x2028 || x == 0x2029 || x == 0x202f || x == 0x205f || x == 0x3000
}

/// `s` without its trailing white space.
pub open spec fn trim_end(s: Seq<char>) -> Seq<char>
    decreases s.len(),
{
    if s.len() > 0 && is_white(s.last()) {
        trim_end(s.drop_last())
    } else {
        s
    }
}

/// The characters after the last white space of `s`.
pub open spec fn trailing_word(s: Seq<char>) -> Seq<char>
    decreases s.len(),
{
    if s.len() == 0 || is_white(s.last()) {
        Seq::empty()
    } else {
        trailing_word(s.drop_last()).push(s.last())
    }
}

/// The last white-space separated word of `s`.
pub open spec fn last_word(s: Seq<char>) -> Seq<char> {
    trailing_word(trim_end(s))
}

/// The comma-separated fields of `t`, empty ones included.
pub open spec fn comma_fields(t: Seq<char>) -> Seq<Seq<char>>
    decreases t.len(),
{
    if t.len() == 0 {
        seq![Seq::empty()]
    } else if t.last() == ',' {
        comma_fields(t.drop_last()).push(Seq::empty())
    } else {
        let f = comma_fields(t.drop_last());
        f.update(f.len() - 1, f.last().push(t.last()))
    }
}

pub open spec fn i32_of(s: Seq<char>) -> Option<int> {
    match signed_numeral(s) {
        Some(v) => if i32::MIN <= v <= i32::MAX {
            Some(v)
        } else {
            None
        },
        None => None,
    }
}

/// The values of `fields`, when every one is an `i32`.
pub open spec fn parsed_fields(fields: Seq<Seq<char>>) -> Option<Seq<int>>
    decreases fields.len(),
{
    if fields.len() == 0 {
        Some(Seq::empty())
    } else {
        match (parsed_fields(fields.drop_last()), i32_of(fields.last())) {
            (Some(v), Some(x)) => Some(v.push(x)),
            _ => None,
        }
    }
}

/// The values of a raw series: the integers of its last word.
pub open spec fn series_values(value: Seq<char>) -> Option<Seq<int>> {
    parsed_fields(comma_fields(last_word(value)))
}

/// The sum of the last `n` values of `v`.
pub open spec fn suffix_sum(v: Seq<int>, n: int) -> int
    decreases n,
{
    if n <= 0 || n > v.len() {
        0
    } else {
        v[v.len() - n] + suffix_sum(v, n - 1)
    }
}

/// The counts from 1 to `m` that `days` holds, in increasing order.
pub open spec fn hits(days: Seq<int>, m: int) -> Seq<int>
    decreases m,
{
    if m <= 0 {
        Seq::empty()
    } else if days.contains(m) {
        hits(days, m - 1).push(m)
    } else {
        hits(days, m - 1)
    }
}

/// Slot `j` sums the values back to the `j`-th count of `days` that the
/// series reaches, or is zero.
pub open spec fn summed_slots(v: Seq<int>, days: Seq<int>) -> Seq<int> {
    let h = hits(days, v.len() as int);
    Seq::new(5, |j: int| if j < h.len() { suffix_sum(v, h[j]) } else { 0 })
}

/// The trading-day counts of the lookback periods ending on `date`.
pub open spec fn period_counts(date: Seq<char>) -> Seq<int> {
    Seq::new(5, |i: int| trading_days_back(date, look_back_periods()[i])->0 as int)
}

proof fn lemma_trading_days_bound(lo: int, hi: int)
    requires
        lo <= hi,
    ensures
        trading_days_in(lo, hi) <= hi - lo,
    decreases hi - lo,
{
    if lo < hi {
        lemma_trading_days_bound(lo, hi - 1);
    }
}

fn last_word_of(s: &str) -> (r: String)
    ensures
        r@ == last_word(s@),
{
    let n = s.unicode_len();
    let mut j = n;
    assert(s@.take(n as int) =~= s@);
    while j > 0 && white(s.get_char(j - 1))
        invariant
            n == s@.len(),
            j <= n,
            trim_end(s@) == trim_end(s@.take(j as int)),
        decreases j,
    {
        assert(s@.take(j as int).drop_last() =~= s@.take(j - 1));
        j = j - 1;
    }
    let e = j;
    assert(trim_end(s@.take(e as int)) == s@.take(e as int));
    while j > 0 && !white(s.get_char(j - 1))
        invariant
            n == s@.len(),
            j <= e <= n,
            trailing_word(s@.take(e as int)) == trailing_word(s@.take(j as int)) + s@.subrange(j as int, e as int),
        decreases j,
    {
        assert(s@.take(j as int).drop_last() =~= s@.take(j - 1));
        assert(s@.subrange(j - 1, e as int) =~= seq![s@[j - 1]] + s@.subrange(j as int, e as int));
        assert(trailing_word(s@.take(j as int)) == trailing_word(s@.take(j - 1)).push(s@[j - 1]));
        assert(trailing_word(s@.take(j - 1)) + s@.subrange(j - 1, e as int) =~= trailing_word(
            s@.take(j - 1),
        ).push(s@[j - 1]) + s@.subrange(j as int, e as int));
        j = j - 1;
    }
    assert(trailing_word(s@.take(j as int)) =~= Seq::<char>::empty());
    let r = String::from_str(s.substring_char(j, e));
    assert(trailing_word(s@.take(e as int)) =~= r@);
    r
}

pub open spec fn ints(v: Seq<i32>) -> Seq<int> {
    v.map_values(|x: i32| x as int)
}

/// The values of the comma-separated fields of `t`, when all are `i32`.
fn field_values(t: &str) -> (r: Option<Vec<i32>>)
    ensures
        match r {
            Some(v) => parsed_fields(comma_fields(t@)) == Some(ints(v@)),
            None => parsed_fields(comma_fields(t@)) is None,
        },
{
    let n = t.unicode_len();
    let mut vals: Vec<i32> = Vec::new();
    let mut ok = true;
    let mut p: usize = 0;
    let mut i: usize = 0;
    let ghost mut done: Seq<Seq<char>> = Seq::empty();
    assert(t@.take(0) =~= Seq::<char>::empty());
    assert(comma_fields(t@.take(0)) =~= done.push(t@.subrange(0, 0)));
    while i < n
        invariant
            n == t@.len(),
            p <= i <= n,
            comma_fields(t@.take(i as int)) == done.push(t@.subrange(p as int, i as int)),
            ok ==> parsed_fields(done) == Some(ints(vals@)),
            !ok ==> parsed_fields(done) is None,
        decreases n - i,
    {
        let c = t.get_char(i);
        let ghost prev = t@.take(i as int);
        assert(t@.take(i + 1).drop_last() =~= prev);
        assert(t@.take(i + 1).last() == c);
        if c == ',' {
            let piece = t.substring_char(p, i);
            let ghost new_done = done.push(piece@);
            assert(new_done.drop_last() =~= done);
            if ok {
                match parse_i32(piece) {
                    Some(x) => {
                        vals.push(x);
                        assert(ints(vals@) =~= ints(vals@.drop_last()).push(x as int));
                    },
                    None => {
                        ok = false;
                    },
                }
            }
            proof {
                done = new_done;
            }
            p = i + 1;
            assert(t@.subrange(p as int, i + 1) =~= Seq::<char>::empty());
            assert(comma_fields(t@.take(i + 1)) == comma_fields(prev).push(Seq::empty()));
            assert(comma_fields(t@.take(i + 1)) =~= done.push(t@.subrange(p as int, i + 1)));
        } else {
            let ghost f = comma_fields(prev);
            assert(f.len() - 1 == done.len());
            assert(comma_fields(t@.take(i + 1)) == f.update(f.len() - 1, f.last().push(c)));
            assert(t@.subrange(p as int, i + 1) =~= t@.subrange(p as int, i as int).push(c));
            assert(comma_fields(t@.take(i + 1)) =~= done.push(t@.subrange(p as int, i + 1)));
        }
        i = i + 1;
    }
    let piece = t.substring_char(p, n);
    let ghost all = done.push(piece@);
    assert(t@.take(n as int) =~= t@);
    assert(all.drop_last() =~= done);
    if !ok {
        return None;
    }
    match parse_i32(piece) {
        Some(x) => {
            vals.push(x);
            assert(ints(vals@) =~= ints(vals@.drop_last()).push(x as int));
            Some(vals)
        },
        None => None,
    }
}

impl Model {
    /// Fills the slots from a raw series, whose last word lists daily net
    /// values, oldest first: slot `j` sums the newest values back over the
    /// `j`-th lookback period, counted in trading days up to the record's
    /// date. A series whose values are not all integers, or a record whose
    /// date does not parse, leaves the slots as they were.
    pub fn concentration(self, value: &str) -> (r: Self)
        requires
            last_word(value@).len() > 0,
        ensures
            r.stock_id@ == self.stock_id@,
            r.exchange_date@ == self.exchange_date@,
            match (series_values(value@), date_number(self.exchange_date@, date_format())) {
                (Some(v), Some(_)) => r.slots() == summed_slots(v, period_counts(self.exchange_date@))
                    && r.wf(),
                _ => r.concentration@ == self.concentration@,
            },
    {
        let mut this = self;
        let word = last_word_of(value);
        let vals = match field_values(word.as_str()) {
            Some(v) => v,
            None => return this,
        };
        let days = match Model::trade_days(this.exchange_date.as_str()) {
            Some(d) => d,
            None => return this,
        };
        assert(days@.len() == 5);
        let ghost v = ints(vals@);
        let ghost ds = period_counts(this.exchange_date@);
        proof {
            assert forall|i: int| 0 <= i < 5 implies #[trigger] ds[i] == days@[i] as int && days@[i] <= 60 by {
                let e = date_number(this.exchange_date@, date_format())->0;
                let p = look_back_periods()[i];
                lemma_trading_days_bound(e - p, e + 1);
            }
        }
        let len = vals.len();
        let mut sums: Vec<i64> = vec![0i64; 5];
        let mut total: i128 = 0;
        let mut current: usize = 0;
        let mut index: usize = 0;
        while index < len
            invariant
                len == vals@.len(),
                v == ints(vals@),
                index <= len,
                days@.len() == 5,
                ds.len() == 5,
                forall|i: int| 0 <= i < 5 ==> #[trigger] ds[i] == days@[i] as int && days@[i] <= 60,
                total == suffix_sum(v, index as int),
                -(index * 0x8000_0000) <= total <= index * 0x8000_0000,
                current == if hits(ds, index as int).len() < 5 { hits(ds, index as int).len() } else { 5 },
                sums@.len() == 5,
                forall|j: int|
                    0 <= j < 5 ==> #[trigger] sums@[j] == if j < hits(ds, index as int).len() {
                        suffix_sum(v, hits(ds, index as int)[j])
                    } else {
                        0
                    },
            decreases len - index,
        {
            let x = vals[len - 1 - index];
            total = total + x as i128;
            let now = (index + 1) as u64;
            let hit = days[0] == now || days[1] == now || days[2] == now || days[3] == now || days[4] == now;
            proof {
                if hit {
                    let k = if days@[0] == now { 0int } else if days@[1] == now { 1int } else if days@[2] == now { 2int } else if days@[3] == now { 3int } else { 4int };
                    assert(ds[k] == now);
                    assert(ds.contains(now as int));
                } else {
                    assert forall|k: int| 0 <= k < ds.len() implies ds[k] != now as int by {
                        assert(ds[k] == days@[k] as int);
                    }
                }
            }
            if hit && current < 5 {
                assert(now <= 60);
                sums.set(current, total as i64);
            }
            if hit && current < 5 {
                current = current + 1;
            }
            index = index + 1;
            proof {
                assert forall|j: int|
                    0 <= j < 5 implies #[trigger] sums@[j] == if j < hits(ds, index as int).len() {
                        suffix_sum(v, hits(ds, index as int)[j])
                    } else {
                        0
                    } by {
                    if hit {
                        assert(hits(ds, index as int) == hits(ds, index - 1).push(index as int));
                    }
                }
            }
        }
        this.concentration = sums;
        assert(this.slots() =~= summed_slots(v, ds));
        this
    }
}

} // verus!
