//! Text building blocks: decimal numbers and comma-separated joins.

use vstd::prelude::*;
use vstd::string::*;

verus! {

/// The character of one decimal digit.
pub open spec fn digit_char(d: int) -> char {
    if d == 0 { '0' }
    else if d == 1 { '1' }
    else if d == 2 { '2' }
    else if d == 3 { '3' }
    else if d == 4 { '4' }
    else if d == 5 { '5' }
    else if d == 6 { '6' }
    else if d == 7 { '7' }
    else if d == 8 { '8' }
    else { '9' }
}

/// The decimal notation of `n`, without sign or leading zeros.
pub open spec fn decimal(n: nat) -> Seq<char>
    decreases n,
{
    if n < 10 {
        seq![digit_char(n as int)]
    } else {
        decimal(n / 10) + seq![digit_char((n % 10) as int)]
    }
}

fn digit_str(d: u64) -> (r: &'static str)
    requires
        d < 10,
    ensures
        r@ == seq![digit_char(d as int)],
{
    proof {
        reveal_strlit("0");
        reveal_strlit("1");
        reveal_strlit("2");
        reveal_strlit("3");
        reveal_strlit("4");
        reveal_strlit("5");
        reveal_strlit("6");
        reveal_strlit("7");
        reveal_strlit("8");
        reveal_strlit("9");
    }
    if d == 0 { "0" }
    else if d == 1 { "1" }
    else if d == 2 { "2" }
    else if d == 3 { "3" }
    else if d == 4 { "4" }
    else if d == 5 { "5" }
    else if d == 6 { "6" }
    else if d == 7 { "7" }
    else if d == 8 { "8" }
    else { "9" }
}

/// Writes `n` in decimal.
pub fn decimal_string(n: u64) -> (r: String)
    ensures
        r@ == decimal(n as nat),
    decreases n,
{
    if n < 10 {
        String::from_str(digit_str(n))
    } else {
        let mut s = decimal_string(n / 10);
        s.append(digit_str(n % 10));
        s
    }
}

/// The parts, in order, with a comma between each two.
pub open spec fn comma_join(parts: Seq<Seq<char>>) -> Seq<char>
    decreases parts.len(),
{
    if parts.len() == 0 {
        Seq::empty()
    } else if parts.len() == 1 {
        parts[0]
    } else {
        comma_join(parts.drop_last()) + seq![','] + parts.last()
    }
}

/// The view of each string of a vector.
pub open spec fn views(v: Seq<String>) -> Seq<Seq<char>> {
    v.map_values(|s: String| s@)
}

/// Joins the parts with commas.
pub fn comma_join_strings(parts: &Vec<String>) -> (r: String)
    ensures
        r@ == comma_join(views(parts@)),
{
    let mut out = String::new();
    let mut i: usize = 0;
    while i < parts.len()
        invariant
            0 <= i <= parts.len(),
            out@ == comma_join(views(parts@.take(i as int))),
        decreases parts.len() - i,
    {
        proof {
            let next = views(parts@.take(i as int + 1));
            assert(next.drop_last() =~= views(parts@.take(i as int)));
            assert(next.last() == parts@[i as int]@);
            assert(next.len() == i + 1);
            if i == 0 {
                assert(comma_join(next) == next[0]);
            }
        }
        let ghost before = out@;
        if i > 0 {
            proof {
                reveal_strlit(",");
            }
            out.append(",");
            assert(out@ == before + seq![',']);
        }
        let part: &str = parts[i].as_str();
        out.append(part);
        assert(out@ == comma_join(views(parts@.take(i as int + 1))));
        i = i + 1;
    }
    proof {
        assert(parts@.take(i as int) =~= parts@);
    }
    out
}

/// No line break anywhere in `s`.
pub open spec fn no_line_break(s: Seq<char>) -> bool {
    forall|i: int| 0 <= i < s.len() ==> s[i] != '\n'
}

pub proof fn lemma_decimal_no_line_break(n: nat)
    ensures
        no_line_break(decimal(n)),
    decreases n,
{
    if n >= 10 {
        lemma_decimal_no_line_break(n / 10);
        let d = decimal(n / 10);
        let last = seq![digit_char((n % 10) as int)];
        assert forall|i: int| 0 <= i < decimal(n).len() implies decimal(n)[i] != '\n' by {
            if i < d.len() {
                assert(decimal(n)[i] == d[i]);
            } else {
                assert(decimal(n)[i] == last[i - d.len()]);
            }
        }
    }
}

pub proof fn lemma_comma_join_no_line_break(parts: Seq<Seq<char>>)
    requires
        forall|i: int| 0 <= i < parts.len() ==> no_line_break(#[trigger] parts[i]),
    ensures
        no_line_break(comma_join(parts)),
    decreases parts.len(),
{
    if parts.len() > 1 {
        let front = parts.drop_last();
        assert forall|i: int| 0 <= i < front.len() implies no_line_break(#[trigger] front[i]) by {
            assert(front[i] == parts[i]);
        }
        lemma_comma_join_no_line_break(front);
        let a = comma_join(front);
        let b = seq![','];
        let c = parts.last();
        assert(no_line_break(c));
        assert forall|i: int| 0 <= i < comma_join(parts).len() implies comma_join(parts)[i] != '\n' by {
            if i < a.len() {
                assert(comma_join(parts)[i] == a[i]);
            } else if i < a.len() + 1 {
                assert(comma_join(parts)[i] == b[i - a.len()]);
            } else {
                assert(comma_join(parts)[i] == c[i - a.len() - 1]);
            }
        }
    } else if parts.len() == 1 {
        assert(no_line_break(parts[0]));
    }
}

} // verus!
