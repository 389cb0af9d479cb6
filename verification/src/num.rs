use vstd::prelude::*;
use vstd::string::*;

verus! {

/// The character for one decimal digit.
pub open spec fn digit_char(d: nat) -> char {
    if d == 0 {
        '0'
    } else if d == 1 {
        '1'
    } else if d == 2 {
        '2'
    } else if d == 3 {
        '3'
    } else if d == 4 {
        '4'
    } else if d == 5 {
        '5'
    } else if d == 6 {
        '6'
    } else if d == 7 {
        '7'
    } else if d == 8 {
        '8'
    } else {
        '9'
    }
}

/// The decimal representation of a natural number, most significant digit
/// first, with no leading zeros (a single `'0'` for zero).
pub open spec fn dec_rep(n: nat) -> Seq<char>
    decreases n,
{
    if n < 10 {
        seq![digit_char(n)]
    } else {
        dec_rep(n / 10).push(digit_char(n % 10))
    }
}

/// The decimal representation of an integer: a `'-'` sign for negative
/// values, followed by the digits of the magnitude.
pub open spec fn dec_int(i: int) -> Seq<char> {
    if i < 0 {
        seq!['-'] + dec_rep((-i) as nat)
    } else {
        dec_rep(i as nat)
    }
}

pub open spec fn is_digit(c: char) -> bool {
    ('0' as u32) <= (c as u32) && (c as u32) <= ('9' as u32)
}

pub open spec fn digit_val(c: char) -> nat {
    ((c as u32) - ('0' as u32)) as nat
}

pub open spec fn all_digits(s: Seq<char>) -> bool {
    forall|i: int| 0 <= i < s.len() ==> is_digit(#[trigger] s[i])
}

/// The value of a sequence of decimal digits, most significant first.
pub open spec fn digits_val(s: Seq<char>) -> nat
    decreases s.len(),
{
    if s.len() == 0 {
        0
    } else {
        digits_val(s.drop_last()) * 10 + digit_val(s.last())
    }
}

/// What parsing a decimal integer yields: an optional `'-'` sign followed
/// by at least one digit, whose value fits in `i64`; anything else is
/// `None`.
pub open spec fn spec_parse_i64(s: Seq<char>) -> Option<i64> {
    if s.len() > 0 && s[0] == '-' {
        let d = s.subrange(1, s.len() as int);
        if d.len() > 0 && all_digits(d) && digits_val(d) <= i64::MAX + 1 {
            Some((-(digits_val(d) as int)) as i64)
        } else {
            None
        }
    } else {
        if s.len() > 0 && all_digits(s) && digits_val(s) <= i64::MAX {
            Some(digits_val(s) as i64)
        } else {
            None
        }
    }
}

fn digit_str(d: u64) -> (r: &'static str)
    requires
        d < 10,
    ensures
        r@ == seq![digit_char(d as nat)],
{
    proof {
        reveal_strlit("0");
        reveal_strlit("1");
        reveal_strlit("2");
        reveal_strlit("3");
        reveal_strlit("4");
        reveal_strlit("5");
        reveal_strlit("6");
        reveal_strlit("7");
        reveal_strlit("8");
        reveal_strlit("9");
    }
    let r = match d {
        0 => "0",
        1 => "1",
        2 => "2",
        3 => "3",
        4 => "4",
        5 => "5",
        6 => "6",
        7 => "7",
        8 => "8",
        _ => "9",
    };
    proof {
        assert(r@ =~= seq![digit_char(d as nat)]);
    }
    r
}

/// Format a natural number in decimal.
pub fn u64_to_dec(n: u64) -> (r: String)
    ensures
        r@ == dec_rep(n as nat),
    decreases n,
{
    if n < 10 {
        digit_str(n).to_owned()
    } else {
        let prefix = u64_to_dec(n / 10);
        let r = prefix.concat(digit_str(n % 10));
        proof {
            assert(r@ =~= dec_rep(n as nat));
        }
        r
    }
}

/// Format an integer in decimal, with a leading `'-'` when negative.
pub fn i64_to_dec(i: i64) -> (r: String)
    ensures
        r@ == dec_int(i as int),
{
    if i >= 0 {
        u64_to_dec(i as u64)
    } else {
        let mag: u64 = ((-(i as i128)) as u64);
        let r = "-".to_owned().concat(u64_to_dec(mag).as_str());
        proof {
            reveal_strlit("-");
            assert(r@ =~= dec_int(i as int));
        }
        r
    }
}

/// Parse a decimal integer, as `spec_parse_i64` describes.
pub fn parse_i64(s: &str) -> (r: Option<i64>)
    ensures
        r == spec_parse_i64(s@),
{
    let len: usize = s.unicode_len();
    if len == 0 {
        return None;
    }
    let neg = s.get_char(0) == '-';
    let start: usize = if neg {
        1
    } else {
        0
    };
    let ghost d = s@.subrange(start as int, s@.len() as int);
    if len == start {
        // a bare "-"
        return None;
    }
    let limit: u128 = if neg {
        (i64::MAX as u128) + 1
    } else {
        i64::MAX as u128
    };
    let mut acc: u128 = 0;
    let mut over = false;
    let mut i: usize = start;
    while i < len
        invariant
            start <= i <= len,
            len == s@.len(),
            start == if neg { 1int } else { 0int },
            neg ==> s@[0] == '-',
            !neg ==> s@[0] != '-',
            d == s@.subrange(start as int, s@.len() as int),
            limit == if neg { i64::MAX + 1 } else { i64::MAX as int },
            all_digits(s@.subrange(start as int, i as int)),
            !over ==> acc == digits_val(s@.subrange(start as int, i as int)),
            !over ==> acc <= limit,
            over ==> digits_val(s@.subrange(start as int, i as int)) > limit,
        decreases len - i,
    {
        let c = s.get_char(i);
        let cu = c as u32;
        if cu < '0' as u32 || cu > '9' as u32 {
            proof {
                assert(!is_digit(s@[i as int]));
                assert(d[i - start] == s@[i as int]);
                assert(!all_digits(d));
                if !neg {
                    assert(d =~= s@);
                }
            }
            return None;
        }
        let dv: u32 = (c as u32) - ('0' as u32);
        proof {
            assert(s@.subrange(start as int, (i + 1) as int).drop_last() =~= s@.subrange(
                start as int,
                i as int,
            ));
            assert(s@.subrange(start as int, (i + 1) as int).last() == c);
        }
        if over {
            proof {
                let p = s@.subrange(start as int, i as int);
                let q = s@.subrange(start as int, (i + 1) as int);
                assert(digits_val(q) == digits_val(p) * 10 + digit_val(c));
                assert(digits_val(p) > limit);
            }
        } else {
            acc = acc * 10 + (dv as u128);
            if acc > limit {
                over = true;
            }
        }
        i += 1;
    }
    proof {
        assert(s@.subrange(start as int, i as int) =~= d);
        if !neg {
            assert(d =~= s@);
        }
    }
    if over {
        return None;
    }
    if neg {
        let v: i64 = ((-(acc as i128)) as i64);
        proof {
            assert(acc == digits_val(d));
            assert(digits_val(d) <= i64::MAX + 1);
        }
        Some(v)
    } else {
        proof {
            assert(acc == digits_val(s@));
            assert(digits_val(s@) <= i64::MAX);
        }
        Some(acc as i64)
    }
}

/// The digits of a natural number parse back to its value: formatting with
/// `dec_rep` and reading with `digits_val` round-trips.
pub proof fn lemma_dec_rep_val(n: nat)
    ensures
        all_digits(dec_rep(n)),
        digits_val(dec_rep(n)) == n,
        dec_rep(n).len() > 0,
        dec_rep(n)[0] != '-',
    decreases n,
{
    if n < 10 {
        assert(dec_rep(n) =~= seq![digit_char(n)]);
        assert(digits_val(dec_rep(n)) == digits_val(dec_rep(n).drop_last()) * 10 + digit_val(
            dec_rep(n).last(),
        ));
        assert(dec_rep(n).drop_last() =~= Seq::<char>::empty());
    } else {
        lemma_dec_rep_val(n / 10);
        let s = dec_rep(n);
        assert(s == dec_rep(n / 10).push(digit_char(n % 10)));
        assert(s.drop_last() =~= dec_rep(n / 10));
        assert(s.last() == digit_char(n % 10));
        assert(digit_val(digit_char(n % 10)) == n % 10);
        assert(digits_val(s) == (n / 10) * 10 + n % 10);
        assert((n / 10) * 10 + n % 10 == n) by (nonlinear_arith);
        assert forall|i: int| 0 <= i < s.len() implies is_digit(#[trigger] s[i]) by {
            if i < s.len() - 1 {
                assert(s[i] == dec_rep(n / 10)[i]);
            }
        }
    }
}

/// Round trip: the decimal text of any `i64` parses back to the same value.
pub proof fn lemma_dec_int_round_trip(i: i64)
    ensures
        spec_parse_i64(dec_int(i as int)) == Some(i),
{
    if i >= 0 {
        lemma_dec_rep_val(i as nat);
        let s = dec_int(i as int);
        assert(s == dec_rep(i as nat));
        assert(s[0] != '-');
        assert(digits_val(s) == i as nat);
    } else {
        lemma_dec_rep_val((-(i as int)) as nat);
        let m = (-(i as int)) as nat;
        let s = dec_int(i as int);
        assert(s == seq!['-'] + dec_rep(m));
        assert(s[0] == '-');
        let d = s.subrange(1, s.len() as int);
        assert(d =~= dec_rep(m));
        assert(digits_val(d) == m);
        assert(m <= i64::MAX + 1);
        assert((-(digits_val(d) as int)) as i64 == i);
    }
}

} // verus!
