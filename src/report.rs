//! One line of JSON per finished record.
use vstd::prelude::*;
use crate::model::Model;

verus! {

pub open spec fn digit_char(d: int) -> char {
    ('0' as int + d) as char
}

/// The decimal digits of `n`.
pub open spec fn nat_text(n: nat) -> Seq<char>
    decreases n,
{
    if n < 10 {
        seq![digit_char(n as int)]
    } else {
        nat_text(n / 10) + seq![digit_char((n % 10) as int)]
    }
}

/// `v` in decimal, with a leading `-` when negative.
pub open spec fn int_text(v: int) -> Seq<char> {
    if v < 0 {
        seq!['-'] + nat_text((-v) as nat)
    } else {
        nat_text(v as nat)
    }
}

pub open spec fn hex_char(d: int) -> char {
    if d < 10 {
        digit_char(d)
    } else {
        ('a' as int + d - 10) as char
    }
}

/// How `c` is written inside a JSON string.
pub open spec fn escaped_char(c: char) -> Seq<char> {
    if c == '"' {
        seq!['\\', '"']
    } else if c == '\\' {
        seq!['\\', '\\']
    } else if (c as int) < 0x20 {
        seq!['\\', 'u', '0', '0', hex_char(c as int / 16), hex_char(c as int % 16)]
    } else {
        seq![c]
    }
}

/// `s` as the body of a JSON string.
pub open spec fn escaped(s: Seq<char>) -> Seq<char>
    decreases s.len(),
{
    if s.len() == 0 {
        s
    } else {
        escaped(s.drop_last()) + escaped_char(s.last())
    }
}

/// `v` as JSON array elements, separated by commas.
pub open spec fn int_list_text(v: Seq<int>) -> Seq<char>
    decreases v.len(),
{
    if v.len() == 0 {
        Seq::empty()
    } else if v.len() == 1 {
        int_text(v[0])
    } else {
        int_list_text(v.drop_last()) + seq![','] + int_text(v.last())
    }
}

pub open spec fn quoted(s: Seq<char>) -> Seq<char> {
    seq!['"'] + escaped(s) + seq!['"']
}

/// The JSON object of a record: its entity id, its as-of date and its
/// slots in order.
pub open spec fn record_json(id: Seq<char>, as_of: Seq<char>, slots: Seq<int>) -> Seq<char> {
    "{\"entity_id\":"@ + quoted(id) + ",\"as_of\":"@ + quoted(as_of) + ",\"slots\":["@
        + int_list_text(slots) + "]}"@
}

fn digit_str(d: u64) -> (r: &'static str)
    requires
        d < 16,
    ensures
        r@ == seq![hex_char(d as int)],
{
    proof {
        reveal_strlit("0");
        reveal_strlit("1");
        reveal_strlit("2");
        reveal_strlit("3");
        reveal_strlit("4");
        reveal_strlit("5");
        reveal_strlit("6");
        reveal_strlit("7");
        reveal_strlit("8");
        reveal_strlit("9");
        reveal_strlit("a");
        reveal_strlit("b");
        reveal_strlit("c");
        reveal_strlit("d");
        reveal_strlit("e");
        reveal_strlit("f");
    }
    let r = match d {
        0 => "0",
        1 => "1",
        2 => "2",
        3 => "3",
        4 => "4",
        5 => "5",
        6 => "6",
        7 => "7",
        8 => "8",
        9 => "9",
        10 => "a",
        11 => "b",
        12 => "c",
        13 => "d",
        14 => "e",
        _ => "f",
    };
    assert(r@ =~= seq![hex_char(d as int)]);
    r
}

fn push_nat(out: &mut String, n: u64)
    ensures
        final(out)@ == old(out)@ + nat_text(n as nat),
    decreases n,
{
    if n >= 10 {
        push_nat(out, n / 10);
    }
    out.append(digit_str(n % 10));
    proof {
        if n >= 10 {
            assert(old(out)@ + nat_text(n as nat) =~= old(out)@ + nat_text((n / 10) as nat) + seq![
                digit_char((n % 10) as int),
            ]);
        } else {
            assert(n % 10 == n);
        }
    }
}

/// Appends `v` in decimal.
pub fn push_int(out: &mut String, v: i64)
    ensures
        final(out)@ == old(out)@ + int_text(v as int),
{
    if v < 0 {
        out.append("-");
        proof {
            reveal_strlit("-");
        }
        let magnitude: u64 = (0 - (v as i128)) as u64;
        push_nat(out, magnitude);
        assert(final(out)@ =~= old(out)@ + int_text(v as int));
    } else {
        push_nat(out, v as u64);
    }
}

/// Appends `s` escaped as the body of a JSON string.
pub fn push_escaped(out: &mut String, s: &str)
    ensures
        final(out)@ == old(out)@ + escaped(s@),
{
    let ghost start = out@;
    let n = s.unicode_len();
    let mut i: usize = 0;
    while i < n
        invariant
            n == s@.len(),
            i <= n,
            out@ == start + escaped(s@.take(i as int)),
        decreases n - i,
    {
        let c = s.get_char(i);
        assert(s@.take(i + 1).drop_last() =~= s@.take(i as int));
        proof {
            reveal_strlit("\\\"");
            reveal_strlit("\\\\");
            reveal_strlit("\\u00");
        }
        if c == '"' {
            out.append("\\\"");
        } else if c == '\\' {
            out.append("\\\\");
        } else if (c as u32) < 0x20 {
            out.append("\\u00");
            out.append(digit_str((c as u32 / 16) as u64));
            out.append(digit_str((c as u32 % 16) as u64));
        } else {
            out.append(s.substring_char(i, i + 1));
        }
        assert(out@ =~= start + escaped(s@.take(i + 1)));
        i = i + 1;
    }
    assert(s@.take(n as int) =~= s@);
}

impl Model {
    /// The record as one JSON object.
    pub fn to_json(&self) -> (r: String)
        ensures
            r@ == record_json(self.stock_id@, self.exchange_date@, self.slots()),
    {
        let mut out = String::from_str("{\"entity_id\":\"");
        push_escaped(&mut out, self.stock_id.as_str());
        out.append("\",\"as_of\":\"");
        push_escaped(&mut out, self.exchange_date.as_str());
        out.append("\",\"slots\":[");
        let ghost head = out@;
        let n = self.concentration.len();
        let mut k: usize = 0;
        while k < n
            invariant
                n == self.concentration@.len(),
                k <= n,
                out@ == head + int_list_text(self.slots().take(k as int)),
            decreases n - k,
        {
            if k > 0 {
                out.append(",");
            }
            push_int(&mut out, self.concentration[k]);
            proof {
                reveal_strlit(",");
                let t = self.slots().take(k + 1);
                assert(t.drop_last() =~= self.slots().take(k as int));
                assert(out@ =~= head + int_list_text(t));
            }
            k = k + 1;
        }
        out.append("]}");
        proof {
            reveal_strlit("{\"entity_id\":\"");
            reveal_strlit("\",\"as_of\":\"");
            reveal_strlit("\",\"slots\":[");
            reveal_strlit("]}");
            reveal_strlit("{\"entity_id\":");
            reveal_strlit(",\"as_of\":");
            reveal_strlit(",\"slots\":[");
            assert(self.slots().take(n as int) =~= self.slots());
            assert(out@ =~= record_json(self.stock_id@, self.exchange_date@, self.slots()));
        }
        out
    }
}

} // verus!
