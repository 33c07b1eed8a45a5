//! Text utilities the ledger format is built on: splitting a line into
//! delimiter-separated fields, and rendering integers as decimal text.

use vstd::prelude::*;
use vstd::string::StrSliceExecFns;
use vstd::string::StringExecFns;

verus! {

/// The fields of `s` separated by `sep`: splitting the empty sequence gives
/// one empty field, and every occurrence of `sep` ends a field.
pub open spec fn split_at_char(s: Seq<char>, sep: char) -> Seq<Seq<char>>
    decreases s.len(),
{
    if s.len() == 0 {
        seq![Seq::<char>::empty()]
    } else if s[0] == sep {
        seq![Seq::<char>::empty()] + split_at_char(s.skip(1), sep)
    } else {
        let rest = split_at_char(s.skip(1), sep);
        seq![seq![s[0]] + rest[0]] + rest.skip(1)
    }
}

/// Splitting always yields at least one field.
pub proof fn lemma_split_nonempty(s: Seq<char>, sep: char)
    ensures
        split_at_char(s, sep).len() >= 1,
    decreases s.len(),
{
    if s.len() > 0 {
        lemma_split_nonempty(s.skip(1), sep);
    }
}

/// A sequence without the separator is a single field.
pub proof fn lemma_split_no_sep(s: Seq<char>, sep: char)
    requires
        forall|i: int| 0 <= i < s.len() ==> s[i] != sep,
    ensures
        split_at_char(s, sep) == seq![s],
    decreases s.len(),
{
    if s.len() == 0 {
        assert(s =~= Seq::<char>::empty());
    } else {
        lemma_split_no_sep(s.skip(1), sep);
        lemma_split_nonempty(s.skip(1), sep);
        assert(seq![s[0]] + s.skip(1) =~= s);
        assert(split_at_char(s, sep) =~= seq![s]);
    }
}

/// Splitting at the first separator occurrence peels off one field.
pub proof fn lemma_split_at_sep(s: Seq<char>, sep: char, k: int)
    requires
        0 <= k < s.len(),
        s[k] == sep,
        forall|i: int| 0 <= i < k ==> s[i] != sep,
    ensures
        split_at_char(s, sep) == seq![s.take(k)] + split_at_char(s.skip(k + 1), sep),
    decreases k,
{
    if k == 0 {
        assert(s.take(0) =~= Seq::<char>::empty());
        assert(split_at_char(s, sep) =~= seq![s.take(0)] + split_at_char(s.skip(1), sep));
    } else {
        let t = s.skip(1);
        assert(forall|i: int| 0 <= i < k - 1 ==> t[i] != sep);
        lemma_split_at_sep(t, sep, k - 1);
        lemma_split_nonempty(t.skip(k), sep);
        assert(t.skip(k) =~= s.skip(k + 1));
        assert(seq![s[0]] + t.take(k - 1) =~= s.take(k));
        assert((seq![t.take(k - 1)] + split_at_char(t.skip(k), sep))[0] == t.take(k - 1));
        assert(split_at_char(s, sep) =~= seq![s.take(k)] + split_at_char(s.skip(k + 1), sep));
    }
}

/// Position of the first `sep` at or after `start`, or the length of `s` if
/// there is none.
fn find_from(s: &str, sep: char, start: usize) -> (j: usize)
    requires
        start <= s@.len(),
    ensures
        start <= j <= s@.len(),
        forall|i: int| start <= i < j ==> s@[i] != sep,
        j < s@.len() ==> s@[j as int] == sep,
{
    let n: usize = s.unicode_len();
    let mut j: usize = start;
    while j < n
        invariant
            start <= j <= n,
            n == s@.len(),
            forall|i: int| start <= i < j ==> s@[i] != sep,
        decreases n - j,
    {
        if s.get_char(j) == sep {
            return j;
        }
        j = j + 1;
    }
    j
}

/// Split `s` into the fields separated by `sep`.
pub fn split_on(s: &str, sep: char) -> (fields: Vec<String>)
    ensures
        fields@.map_values(|f: String| f@) == split_at_char(s@, sep),
        fields@.len() >= 1,
{
    let n: usize = s.unicode_len();
    let mut fields: Vec<String> = Vec::new();
    let mut start: usize = 0;
    proof {
        assert(s@.skip(0) =~= s@);
        assert(fields@.map_values(|f: String| f@) + split_at_char(s@, sep) =~= split_at_char(
            s@,
            sep,
        ));
    }
    loop
        invariant
            start <= n,
            n == s@.len(),
            split_at_char(s@, sep) == fields@.map_values(|f: String| f@) + split_at_char(
                s@.skip(start as int),
                sep,
            ),
        decreases n - start,
    {
        let j: usize = find_from(s, sep, start);
        let field: String = s.substring_char(start, j).to_owned();
        proof {
            assert(s@.subrange(start as int, j as int) =~= s@.skip(start as int).take(
                j - start as int,
            ));
        }
        if j == n {
            proof {
                lemma_split_no_sep(s@.skip(start as int), sep);
                assert(s@.skip(start as int) =~= s@.subrange(start as int, j as int));
            }
            fields.push(field);
            proof {
                assert(fields@.map_values(|f: String| f@) =~= split_at_char(s@, sep));
            }
            return fields;
        }
        proof {
            lemma_split_at_sep(s@.skip(start as int), sep, j - start);
            assert(s@.skip(start as int).skip(j - start + 1) =~= s@.skip(j + 1));
        }
        let ghost old_fields = fields@;
        fields.push(field);
        proof {
            assert(fields@.map_values(|f: String| f@) =~= old_fields.map_values(|f: String| f@)
                + seq![s@.skip(start as int).take(j - start as int)]);
        }
        start = j + 1;
    }
}

/// The decimal digit character for `d` in `0..10`.
pub open spec fn digit_char(d: int) -> char {
    if d == 0 {
        '0'
    } else if d == 1 {
        '1'
    } else if d == 2 {
        '2'
    } else if d == 3 {
        '3'
    } else if d == 4 {
        '4'
    } else if d == 5 {
        '5'
    } else if d == 6 {
        '6'
    } else if d == 7 {
        '7'
    } else if d == 8 {
        '8'
    } else {
        '9'
    }
}

/// Decimal rendering of a nonnegative number, without leading zeros (except
/// for the number zero itself).
pub open spec fn dec_digits(n: int) -> Seq<char>
    recommends
        n >= 0,
    decreases n,
{
    if n < 10 {
        seq![digit_char(n)]
    } else {
        dec_digits(n / 10).push(digit_char(n % 10))
    }
}

/// Decimal rendering of a signed number: a minus sign before the magnitude.
pub open spec fn int_dec(n: int) -> Seq<char> {
    if n >= 0 {
        dec_digits(n)
    } else {
        seq!['-'] + dec_digits(-n)
    }
}

pub(crate) fn digit_string(d: u64) -> (s: &'static str)
    requires
        d < 10,
    ensures
        s@ == seq![digit_char(d as int)],
{
    proof {
        reveal_strlit("0");
        reveal_strlit("1");
        reveal_strlit("2");
        reveal_strlit("3");
        reveal_strlit("4");
        reveal_strlit("5");
        reveal_strlit("6");
        reveal_strlit("7");
        reveal_strlit("8");
        reveal_strlit("9");
    }
    let s: &'static str = if d == 0 {
        "0"
    } else if d == 1 {
        "1"
    } else if d == 2 {
        "2"
    } else if d == 3 {
        "3"
    } else if d == 4 {
        "4"
    } else if d == 5 {
        "5"
    } else if d == 6 {
        "6"
    } else if d == 7 {
        "7"
    } else if d == 8 {
        "8"
    } else {
        "9"
    };
    proof {
        assert(s@ =~= seq![digit_char(d as int)]);
    }
    s
}

/// Render `n` in decimal.
pub fn u64_to_dec(n: u64) -> (s: String)
    ensures
        s@ == dec_digits(n as int),
    decreases n,
{
    if n < 10 {
        String::from_str(digit_string(n))
    } else {
        let mut s: String = u64_to_dec(n / 10);
        s.append(digit_string(n % 10));
        proof {
            assert(dec_digits((n / 10) as int) + seq![digit_char((n % 10) as int)] =~= dec_digits(
                n as int,
            ));
        }
        s
    }
}

/// Render `n` in decimal, with a minus sign where it is negative.
pub fn i64_to_dec(n: i64) -> (s: String)
    ensures
        s@ == int_dec(n as int),
{
    if n >= 0 {
        u64_to_dec(n as u64)
    } else {
        let m: u64 = if n == i64::MIN {
            9223372036854775808
        } else {
            (-n) as u64
        };
        let mut s: String = String::from_str("-");
        proof {
            reveal_strlit("-");
        }
        let digits: String = u64_to_dec(m);
        s.append(digits.as_str());
        proof {
            assert("-"@ =~= seq!['-']);
            assert(s@ =~= int_dec(n as int));
        }
        s
    }
}

} // verus!
