//! Small verified text utilities: string equality, decimal rendering and
//! parsing, and splitting on a separator character. The roster file format
//! and the team-name tables are built on these.

use vstd::prelude::*;

verus! {

/// Whether two string slices hold the same characters.
pub fn str_eq(a: &str, b: &str) -> (r: bool)
    ensures
        r == (a@ == b@),
{
    let na: usize = a.unicode_len();
    let nb: usize = b.unicode_len();
    if na != nb {
        return false;
    }
    let mut i: usize = 0;
    while i < na
        invariant
            na == a@.len(),
            na == b@.len(),
            i <= na,
            forall|j: int| 0 <= j < i ==> a@[j] == b@[j],
        decreases na - i,
    {
        if a.get_char(i) != b.get_char(i) {
            return false;
        }
        i += 1;
    }
    proof {
        assert(a@ =~= b@);
    }
    true
}

/// The character for one decimal digit.
pub open spec fn digit_char(d: int) -> char {
    if d == 0 {
        '0'
    } else if d == 1 {
        '1'
    } else if d == 2 {
        '2'
    } else if d == 3 {
        '3'
    } else if d == 4 {
        '4'
    } else if d == 5 {
        '5'
    } else if d == 6 {
        '6'
    } else if d == 7 {
        '7'
    } else if d == 8 {
        '8'
    } else {
        '9'
    }
}

/// The decimal rendering of a number, most significant digit first, with
/// no sign and no leading zero (except for the number zero itself).
pub open spec fn spec_decimal(n: nat) -> Seq<char>
    decreases n,
{
    if n < 10 {
        seq![digit_char(n as int)]
    } else {
        spec_decimal(n / 10).push(digit_char((n % 10) as int))
    }
}

/// Appends the character of one decimal digit.
fn push_digit(s: &mut String, d: u64)
    requires
        d < 10,
    ensures
        final(s)@ == old(s)@.push(digit_char(d as int)),
{
    let digit: &str = match d {
        0 => "0",
        1 => "1",
        2 => "2",
        3 => "3",
        4 => "4",
        5 => "5",
        6 => "6",
        7 => "7",
        8 => "8",
        _ => "9",
    };
    proof {
        reveal_strlit("0");
        reveal_strlit("1");
        reveal_strlit("2");
        reveal_strlit("3");
        reveal_strlit("4");
        reveal_strlit("5");
        reveal_strlit("6");
        reveal_strlit("7");
        reveal_strlit("8");
        reveal_strlit("9");
        assert(digit@ =~= seq![digit_char(d as int)]);
    }
    s.append(digit);
    proof {
        assert(final(s)@ =~= old(s)@.push(digit_char(d as int)));
    }
}

/// Appends the decimal rendering of `n`.
fn decimal_into(n: u64, s: &mut String)
    ensures
        final(s)@ == old(s)@ + spec_decimal(n as nat),
    decreases n,
{
    if n < 10 {
        push_digit(s, n);
        proof {
            assert(final(s)@ =~= old(s)@ + spec_decimal(n as nat));
        }
    } else {
        decimal_into(n / 10, s);
        push_digit(s, n % 10);
        proof {
            assert((old(s)@ + spec_decimal((n / 10) as nat)).push(
                digit_char((n % 10) as int),
            ) =~= old(s)@ + spec_decimal(n as nat));
        }
    }
}

/// The decimal rendering of a number as a fresh string.
pub fn u64_to_decimal(n: u64) -> (r: String)
    ensures
        r@ == spec_decimal(n as nat),
{
    let mut s = String::new();
    decimal_into(n, &mut s);
    proof {
        assert(s@ =~= spec_decimal(n as nat));
    }
    s
}

/// Whether a character is a decimal digit.
pub open spec fn is_digit(c: char) -> bool {
    48 <= c as int <= 57
}

/// The numeric value of a digit character.
pub open spec fn digit_val(c: char) -> int {
    c as int - 48
}

/// The number a digit string denotes, most significant digit first.
pub open spec fn spec_decimal_value(s: Seq<char>) -> int
    decreases s.len(),
{
    if s.len() == 0 {
        0
    } else {
        spec_decimal_value(s.drop_last()) * 10 + digit_val(s.last())
    }
}

/// A non-empty string of decimal digits.
pub open spec fn valid_decimal(s: Seq<char>) -> bool {
    s.len() > 0 && forall|i: int| 0 <= i < s.len() ==> is_digit(#[trigger] s[i])
}

/// The value of a digit string is not negative.
proof fn lemma_decimal_value_nonneg(s: Seq<char>)
    requires
        forall|i: int| 0 <= i < s.len() ==> is_digit(#[trigger] s[i]),
    ensures
        spec_decimal_value(s) >= 0,
    decreases s.len(),
{
    if s.len() > 0 {
        lemma_decimal_value_nonneg(s.drop_last());
    }
}

/// Every prefix of a digit string denotes at most the whole string's
/// value.
proof fn lemma_decimal_value_prefix_le(s: Seq<char>, j: int)
    requires
        0 <= j <= s.len(),
        forall|i: int| 0 <= i < s.len() ==> is_digit(#[trigger] s[i]),
    ensures
        spec_decimal_value(s.take(j)) <= spec_decimal_value(s),
    decreases s.len() - j,
{
    if j < s.len() {
        assert(s.take(j + 1).drop_last() =~= s.take(j));
        assert(forall|i: int| 0 <= i < s.take(j).len() ==> is_digit(#[trigger] s.take(j)[i]));
        lemma_decimal_value_nonneg(s.take(j));
        assert(spec_decimal_value(s.take(j + 1)) == spec_decimal_value(s.take(j)) * 10 + digit_val(
            s[j],
        ));
        lemma_decimal_value_prefix_le(s, j + 1);
    } else {
        assert(s.take(j) =~= s);
    }
}

/// Parses a non-empty decimal digit string into a number. Returns `None`
/// when the string is empty, holds any non-digit character, or denotes a
/// value above `usize::MAX`.
pub fn parse_usize(s: &str) -> (r: Option<usize>)
    ensures
        r is Some <==> valid_decimal(s@) && spec_decimal_value(s@) <= usize::MAX,
        r is Some ==> r->0 == spec_decimal_value(s@),
{
    let n: usize = s.unicode_len();
    if n == 0 {
        return None;
    }
    let mut acc: usize = 0;
    let mut i: usize = 0;
    while i < n
        invariant
            n == s@.len(),
            0 < n,
            i <= n,
            forall|j: int| 0 <= j < i ==> is_digit(#[trigger] s@[j]),
            acc == spec_decimal_value(s@.take(i as int)),
        decreases n - i,
    {
        let c: char = s.get_char(i);
        let cv: u32 = c as u32;
        if cv < 48 || cv > 57 {
            return None;
        }
        let d: usize = (cv - 48) as usize;
        proof {
            assert(s@.take(i + 1).drop_last() =~= s@.take(i as int));
            assert(spec_decimal_value(s@.take(i + 1)) == acc * 10 + d);
        }
        if acc > (usize::MAX - d) / 10 {
            proof {
                vstd::arithmetic::div_mod::lemma_fundamental_div_mod(
                    usize::MAX - d,
                    10,
                );
                assert(acc * 10 + d > usize::MAX);
                if valid_decimal(s@) {
                    lemma_decimal_value_prefix_le(s@, i + 1);
                }
            }
            return None;
        }
        acc = acc * 10 + d;
        i += 1;
    }
    proof {
        assert(s@.take(n as int) =~= s@);
    }
    Some(acc)
}

/// Every character of a decimal rendering is a digit (so the rendering is
/// itself a valid decimal string).
pub proof fn lemma_decimal_is_digits(n: nat)
    ensures
        valid_decimal(spec_decimal(n)),
    decreases n,
{
    if n < 10 {
        assert(is_digit(digit_char(n as int)));
    } else {
        lemma_decimal_is_digits(n / 10);
        assert(is_digit(digit_char((n % 10) as int)));
        assert(forall|i: int|
            0 <= i < spec_decimal(n).len() ==> is_digit(#[trigger] spec_decimal(n)[i]));
    }
}

/// Rendering a number and reading the digits back gives the number.
pub proof fn lemma_decimal_value_inverse(n: nat)
    ensures
        spec_decimal_value(spec_decimal(n)) == n,
    decreases n,
{
    if n < 10 {
        assert(spec_decimal(n).drop_last() =~= Seq::<char>::empty());
        assert(spec_decimal_value(Seq::<char>::empty()) == 0);
        assert(digit_val(digit_char(n as int)) == n);
    } else {
        lemma_decimal_value_inverse(n / 10);
        let d = digit_char((n % 10) as int);
        assert(spec_decimal(n) == spec_decimal(n / 10).push(d));
        assert(spec_decimal(n).drop_last() =~= spec_decimal(n / 10));
        assert(digit_val(d) == n % 10);
        assert(spec_decimal_value(spec_decimal(n)) == (n / 10) * 10 + n % 10);
        vstd::arithmetic::div_mod::lemma_fundamental_div_mod(n as int, 10);
    }
}

/// Splitting a string on a separator character: the segments between
/// occurrences of the separator, in order. A string with no separator is
/// one segment; every separator adds one segment; the result is never
/// empty.
pub open spec fn spec_split(s: Seq<char>, sep: char) -> Seq<Seq<char>>
    decreases s.len(),
{
    if s.len() == 0 {
        seq![Seq::<char>::empty()]
    } else if s[0] == sep {
        seq![Seq::<char>::empty()] + spec_split(s.drop_first(), sep)
    } else {
        let rest = spec_split(s.drop_first(), sep);
        seq![seq![s[0]] + rest[0]] + rest.drop_first()
    }
}

/// A split has at least one segment.
pub proof fn lemma_split_len(s: Seq<char>, sep: char)
    ensures
        spec_split(s, sep).len() >= 1,
    decreases s.len(),
{
    if s.len() > 0 {
        lemma_split_len(s.drop_first(), sep);
    }
}

/// A string without the separator splits into itself alone.
pub proof fn lemma_split_no_sep(s: Seq<char>, sep: char)
    requires
        forall|i: int| 0 <= i < s.len() ==> #[trigger] s[i] != sep,
    ensures
        spec_split(s, sep) == seq![s],
    decreases s.len(),
{
    if s.len() == 0 {
        assert(s =~= Seq::<char>::empty());
        assert(spec_split(s, sep) =~= seq![s]);
    } else {
        assert(s[0] != sep);
        assert(forall|i: int|
            0 <= i < s.drop_first().len() ==> #[trigger] s.drop_first()[i] != sep);
        lemma_split_no_sep(s.drop_first(), sep);
        let rest = spec_split(s.drop_first(), sep);
        assert(rest == seq![s.drop_first()]);
        assert(spec_split(s, sep) == seq![seq![s[0]] + rest[0]] + rest.drop_first());
        assert(seq![s[0]] + rest[0] =~= s);
        assert(rest.drop_first() =~= Seq::<Seq<char>>::empty());
        assert(seq![seq![s[0]] + rest[0]] + rest.drop_first() =~= seq![s]);
        assert(spec_split(s, sep) =~= seq![s]);
    }
}

/// Splitting at the first separator: the head segment is everything
/// before it, and the rest of the split is the split of everything after
/// it.
pub proof fn lemma_split_at_first_sep(s: Seq<char>, sep: char, k: int)
    requires
        0 <= k < s.len(),
        s[k] == sep,
        forall|i: int| 0 <= i < k ==> #[trigger] s[i] != sep,
    ensures
        spec_split(s, sep) == seq![s.take(k)] + spec_split(s.skip(k + 1), sep),
    decreases k,
{
    if k == 0 {
        assert(s.take(0) =~= Seq::<char>::empty());
        assert(s.skip(1) =~= s.drop_first());
        assert(spec_split(s, sep) =~= seq![s.take(0)] + spec_split(s.skip(1), sep));
    } else {
        let df = s.drop_first();
        assert(df[k - 1] == sep);
        assert(forall|i: int| 0 <= i < k - 1 ==> #[trigger] df[i] != sep);
        lemma_split_at_first_sep(df, sep, k - 1);
        let rest = spec_split(df, sep);
        assert(rest == seq![df.take(k - 1)] + spec_split(df.skip(k), sep));
        lemma_split_len(df.skip(k), sep);
        assert(rest[0] == df.take(k - 1));
        assert(seq![s[0]] + rest[0] =~= s.take(k));
        assert(rest.drop_first() =~= spec_split(df.skip(k), sep));
        assert(df.skip(k) =~= s.skip(k + 1));
        assert(spec_split(s, sep) =~= seq![s.take(k)] + spec_split(s.skip(k + 1), sep));
    }
}

/// Splitting a separator-free segment, a separator, and a remainder:
/// the segment comes first, then the split of the remainder.
pub proof fn lemma_split_concat(a: Seq<char>, rest: Seq<char>, sep: char)
    requires
        forall|i: int| 0 <= i < a.len() ==> #[trigger] a[i] != sep,
    ensures
        spec_split(a + seq![sep] + rest, sep) == seq![a] + spec_split(rest, sep),
{
    let s = a + seq![sep] + rest;
    assert(s[a.len() as int] == sep);
    assert(forall|j: int| 0 <= j < a.len() ==> #[trigger] s[j] == a[j]);
    lemma_split_at_first_sep(s, sep, a.len() as int);
    assert(s.take(a.len() as int) =~= a);
    assert(s.skip(a.len() as int + 1) =~= rest);
}

/// The views of a sequence of strings.
pub open spec fn seq_views(v: Seq<String>) -> Seq<Seq<char>> {
    v.map_values(|t: String| t@)
}

/// Splits a string on a separator character, as the split specification
/// says: the segments between occurrences of the separator, in order.
pub fn split_char(s: &str, sep: char) -> (r: Vec<String>)
    ensures
        seq_views(r@) == spec_split(s@, sep),
        r@.len() >= 1,
{
    let n: usize = s.unicode_len();
    let mut r: Vec<String> = Vec::new();
    let mut start: usize = 0;
    let mut i: usize = 0;
    proof {
        assert(s@.skip(0) =~= s@);
        assert(seq_views(r@) =~= Seq::<Seq<char>>::empty());
        assert(seq_views(r@) + spec_split(s@, sep) =~= spec_split(s@, sep));
    }
    while i < n
        invariant
            n == s@.len(),
            start <= i <= n,
            forall|j: int| start <= j < i ==> #[trigger] s@[j] != sep,
            spec_split(s@, sep) == seq_views(r@) + spec_split(s@.skip(start as int), sep),
        decreases n - i,
    {
        let c: char = s.get_char(i);
        if c == sep {
            let seg: String = s.substring_char(start, i).to_owned();
            proof {
                let tail = s@.skip(start as int);
                assert(tail[i - start as int] == sep);
                assert(forall|j: int| 0 <= j < i - start as int ==> #[trigger] tail[j] != sep);
                lemma_split_at_first_sep(tail, sep, i - start as int);
                assert(tail.take(i - start as int) =~= s@.subrange(start as int, i as int));
                assert(tail.skip(i - start as int + 1) =~= s@.skip(i + 1));
                assert(seq_views(r@.push(seg)) =~= seq_views(r@) + seq![seg@]);
                assert((seq_views(r@) + seq![s@.subrange(start as int, i as int)]) + spec_split(
                    s@.skip(i + 1),
                    sep,
                ) =~= seq_views(r@) + (seq![s@.subrange(start as int, i as int)] + spec_split(
                    s@.skip(i + 1),
                    sep,
                )));
            }
            r.push(seg);
            start = i + 1;
        }
        i += 1;
    }
    let last: String = s.substring_char(start, n).to_owned();
    proof {
        let tail = s@.skip(start as int);
        assert(forall|j: int| 0 <= j < tail.len() ==> #[trigger] tail[j] != sep);
        lemma_split_no_sep(tail, sep);
        assert(tail =~= s@.subrange(start as int, n as int));
        assert(seq_views(r@.push(last)) =~= seq_views(r@) + seq![last@]);
        assert(seq_views(r@) + seq![tail] =~= seq_views(r@) + spec_split(tail, sep));
    }
    r.push(last);
    proof {
        assert(seq_views(r@) =~= spec_split(s@, sep));
    }
    r
}

/// Splitting with a trailing separator dropped: the segments of the
/// split, except that one final empty segment (from a separator ending
/// the string, or from an empty string) is removed.
pub open spec fn spec_split_terminator(s: Seq<char>, sep: char) -> Seq<Seq<char>> {
    let segs = spec_split(s, sep);
    if segs.len() > 0 && segs.last().len() == 0 {
        segs.drop_last()
    } else {
        segs
    }
}

/// Splits a string on a separator, dropping one final empty segment: the
/// behaviour of splitting a line-terminated file into its lines.
pub fn split_terminator_char(s: &str, sep: char) -> (r: Vec<String>)
    ensures
        seq_views(r@) == spec_split_terminator(s@, sep),
{
    let mut r = split_char(s, sep);
    proof {
        lemma_split_len(s@, sep);
    }
    let last_empty: bool = r[r.len() - 1].as_str().is_empty();
    if last_empty {
        let ghost before = r@;
        let _ = r.pop();
        proof {
            assert(seq_views(before)[before.len() - 1] == before[before.len() - 1]@);
            assert(seq_views(r@) =~= seq_views(before).drop_last());
        }
    }
    r
}

} // verus!

