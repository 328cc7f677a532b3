//! Character-level text utilities: splitting on a separator, equality,
//! concatenation, and decimal number parsing and formatting.
use vstd::prelude::*;

verus! {

/// Relies on String::push: appends exactly the given character.
#[verifier::external_body]
pub fn push_char(s: &mut String, c: char)
    ensures
        final(s)@ == old(s)@.push(c),
{
    s.push(c)
}

/// The characters of `pat` occur in `s` starting at position `i`.
pub open spec fn matches_at(s: Seq<char>, pat: Seq<char>, i: int) -> bool {
    0 <= i && i + pat.len() <= s.len() && s.subrange(i, i + pat.len()) == pat
}

/// Splitting on a non-empty separator, leftmost match first, as `str::split`
/// does: the pieces between non-overlapping occurrences of the separator,
/// always at least one piece.
pub open spec fn split_on(s: Seq<char>, sep: Seq<char>) -> Seq<Seq<char>>
    recommends
        sep.len() >= 1,
    decreases s.len(),
{
    if s.len() == 0 {
        seq![Seq::<char>::empty()]
    } else if sep.len() >= 1 && matches_at(s, sep, 0) {
        seq![Seq::<char>::empty()] + split_on(s.skip(sep.len() as int), sep)
    } else {
        prepend_first(seq![s[0]], split_on(s.skip(1), sep))
    }
}

/// Extends the first piece of a non-empty piece list on the left.
pub open spec fn prepend_first(p: Seq<char>, pieces: Seq<Seq<char>>) -> Seq<Seq<char>>
    recommends
        pieces.len() >= 1,
{
    seq![p + pieces[0]] + pieces.skip(1)
}

pub proof fn lemma_split_on_len(s: Seq<char>, sep: Seq<char>)
    ensures
        split_on(s, sep).len() >= 1,
    decreases s.len(),
{
    if s.len() == 0 {
    } else if sep.len() >= 1 && matches_at(s, sep, 0) {
        lemma_split_on_len(s.skip(sep.len() as int), sep);
    } else {
        lemma_split_on_len(s.skip(1), sep);
    }
}

/// Whether `pat` occurs in `s` at character position `i`.
fn match_at(s: &str, pat: &str, i: usize) -> (r: bool)
    requires
        i <= s@.len(),
    ensures
        r == matches_at(s@, pat@, i as int),
{
    let n = s.unicode_len();
    let m = pat.unicode_len();
    if m > n - i {
        assert(!matches_at(s@, pat@, i as int));
        return false;
    }
    let mut j: usize = 0;
    while j < m
        invariant
            0 <= j <= m,
            i + m <= n,
            n == s@.len(),
            m == pat@.len(),
            forall|k: int| 0 <= k < j ==> s@[i + k] == pat@[k],
        decreases m - j,
    {
        if s.get_char(i + j) != pat.get_char(j) {
            assert(!matches_at(s@, pat@, i as int)) by {
                if s@.subrange(i as int, i + pat@.len()) == pat@ {
                    assert(s@.subrange(i as int, i + pat@.len())[j as int] == pat@[j as int]);
                }
            }
            return false;
        }
        j = j + 1;
    }
    assert(s@.subrange(i as int, i + pat@.len()) =~= pat@);
    true
}

/// Splits `s` on every occurrence of the non-empty separator `sep`,
/// exactly as `str::split` would.
pub fn split_str(s: &str, sep: &str) -> (r: Vec<String>)
    requires
        sep@.len() >= 1,
    ensures
        r@.map_values(|p: String| p@) == split_on(s@, sep@),
{
    let n = s.unicode_len();
    let sep_n = sep.unicode_len();
    let mut done: Vec<String> = Vec::new();
    let mut cur = String::new();
    let mut i: usize = 0;
    proof {
        assert(s@.skip(0) =~= s@);
    }
    while i < n
        invariant
            0 <= i <= n,
            n == s@.len(),
            sep_n == sep@.len(),
            sep_n >= 1,
            split_on(s@, sep@) == done@.map_values(|p: String| p@) + prepend_first(
                cur@,
                split_on(s@.skip(i as int), sep@),
            ),
        decreases n - i,
    {
        let ghost rest = s@.skip(i as int);
        if match_at(s, sep, i) {
            proof {
                assert(rest.subrange(0, sep@.len() as int) =~= s@.subrange(
                    i as int,
                    i + sep@.len(),
                ));
                assert(matches_at(rest, sep@, 0));
                assert(rest.skip(sep@.len() as int) =~= s@.skip(i + sep_n));
                let tail = split_on(s@.skip(i + sep_n), sep@);
                lemma_split_on_len(s@.skip(i + sep_n), sep@);
                assert(split_on(rest, sep@) == seq![Seq::<char>::empty()] + tail);
                assert(prepend_first(cur@, split_on(rest, sep@)) =~~= seq![cur@] + tail);
                assert(prepend_first(Seq::<char>::empty(), tail) =~~= tail);
                assert((done@.push(cur)).map_values(|p: String| p@) =~= done@.map_values(
                    |p: String| p@,
                ) + seq![cur@]);
                assert(done@.map_values(|p: String| p@) + (seq![cur@] + tail) =~= (done@.push(
                    cur,
                )).map_values(|p: String| p@) + tail);
            }
            done.push(cur);
            cur = String::new();
            i = i + sep_n;
        } else {
            proof {
                if matches_at(rest, sep@, 0) {
                    assert(rest.subrange(0, sep@.len() as int) =~= s@.subrange(
                        i as int,
                        i + sep@.len(),
                    ));
                    assert(matches_at(s@, sep@, i as int));
                }
                assert(!matches_at(rest, sep@, 0));
                assert(rest.len() > 0);
                assert(rest.skip(1) =~= s@.skip(i + 1));
                let tail = split_on(s@.skip(i + 1), sep@);
                lemma_split_on_len(s@.skip(i + 1), sep@);
                assert(split_on(rest, sep@) == prepend_first(seq![rest[0]], tail));
                assert(rest[0] == s@[i as int]);
                assert(prepend_first(cur@, prepend_first(seq![s@[i as int]], tail)) =~~=
                    prepend_first(cur@.push(s@[i as int]), tail));
            }
            let c = s.get_char(i);
            push_char(&mut cur, c);
            i = i + 1;
        }
    }
    proof {
        assert(s@.skip(n as int) =~= Seq::<char>::empty());
        assert(split_on(s@.skip(n as int), sep@) == seq![Seq::<char>::empty()]);
        assert(prepend_first(cur@, seq![Seq::<char>::empty()]) =~~= seq![cur@]);
        assert((done@.push(cur)).map_values(|p: String| p@) =~= done@.map_values(|p: String| p@)
            + seq![cur@]);
    }
    done.push(cur);
    done
}

/// Character-for-character string equality.
pub fn str_eq(a: &str, b: &str) -> (r: bool)
    ensures
        r == (a@ == b@),
{
    let na = a.unicode_len();
    let nb = b.unicode_len();
    if na != nb {
        return false;
    }
    let mut i: usize = 0;
    while i < na
        invariant
            0 <= i <= na,
            na == a@.len(),
            na == b@.len(),
            forall|k: int| 0 <= k < i ==> a@[k] == b@[k],
        decreases na - i,
    {
        if a.get_char(i) != b.get_char(i) {
            return false;
        }
        i = i + 1;
    }
    proof {
        assert(a@ =~= b@);
    }
    true
}

/// The pieces joined in order, with nothing between them.
pub open spec fn concat_all(pieces: Seq<Seq<char>>) -> Seq<char>
    decreases pieces.len(),
{
    if pieces.len() == 0 {
        Seq::empty()
    } else {
        concat_all(pieces.drop_last()) + pieces.last()
    }
}

/// Concatenates `parts[start..]` into one string.
pub fn concat_from(parts: &Vec<String>, start: usize) -> (r: String)
    requires
        start <= parts@.len(),
    ensures
        r@ == concat_all(parts@.map_values(|p: String| p@).skip(start as int)),
{
    let ghost views = parts@.map_values(|p: String| p@);
    let mut r = String::new();
    let mut k: usize = start;
    proof {
        assert(views.skip(start as int).subrange(0, 0) =~= Seq::<Seq<char>>::empty());
    }
    while k < parts.len()
        invariant
            start <= k <= parts@.len(),
            views == parts@.map_values(|p: String| p@),
            r@ == concat_all(views.skip(start as int).subrange(0, k - start)),
        decreases parts@.len() - k,
    {
        proof {
            let pref = views.skip(start as int).subrange(0, k + 1 - start);
            assert(pref.drop_last() =~= views.skip(start as int).subrange(0, k - start));
            assert(pref.last() == views[k as int]);
        }
        r.append(parts[k].as_str());
        k = k + 1;
    }
    proof {
        assert(views.skip(start as int).subrange(0, parts@.len() - start) =~= views.skip(
            start as int,
        ));
    }
    r
}

/// A decimal digit.
pub open spec fn is_digit(c: char) -> bool {
    48 <= c as u32 && c as u32 <= 57
}

pub open spec fn digit_value(c: char) -> int {
    c as u32 as int - 48
}

pub open spec fn all_digits(s: Seq<char>) -> bool {
    forall|i: int| 0 <= i < s.len() ==> is_digit(#[trigger] s[i])
}

/// The number a digit string denotes, most significant digit first.
pub open spec fn digits_value(s: Seq<char>) -> int
    decreases s.len(),
{
    if s.len() == 0 {
        0
    } else {
        digits_value(s.drop_last()) * 10 + digit_value(s.last())
    }
}

pub proof fn lemma_digits_value_nonneg(s: Seq<char>)
    requires
        all_digits(s),
    ensures
        digits_value(s) >= 0,
    decreases s.len(),
{
    if s.len() > 0 {
        assert(all_digits(s.drop_last())) by {
            assert(forall|i: int|
                0 <= i < s.len() - 1 ==> #[trigger] s.drop_last()[i] == s[i]);
        }
        lemma_digits_value_nonneg(s.drop_last());
    }
}

/// A digit string is worth at least any of its prefixes.
pub proof fn lemma_digits_value_prefix(s: Seq<char>, k: int)
    requires
        all_digits(s),
        0 <= k <= s.len(),
    ensures
        digits_value(s) >= digits_value(s.subrange(0, k)),
    decreases s.len(),
{
    if k < s.len() {
        assert(all_digits(s.drop_last())) by {
            assert(forall|i: int|
                0 <= i < s.len() - 1 ==> #[trigger] s.drop_last()[i] == s[i]);
        }
        assert(s.drop_last().subrange(0, k) =~= s.subrange(0, k));
        lemma_digits_value_prefix(s.drop_last(), k);
        lemma_digits_value_nonneg(s.drop_last());
        assert(digits_value(s) == digits_value(s.drop_last()) * 10 + digit_value(s.last()));
        assert(digits_value(s.drop_last()) * 10 >= digits_value(s.drop_last())) by (nonlinear_arith)
            requires digits_value(s.drop_last()) >= 0;
    } else {
        assert(s.subrange(0, k) =~= s);
    }
}

/// What `str::parse` to an unsigned type with maximum `max` yields: an
/// optional leading `+`, then one or more digits, valued at most `max`.
pub open spec fn parsed_uint(s: Seq<char>, max: int) -> Option<int> {
    let ds = if s.len() >= 1 && s[0] == '+' {
        s.skip(1)
    } else {
        s
    };
    if ds.len() >= 1 && all_digits(ds) && digits_value(ds) <= max {
        Some(digits_value(ds))
    } else {
        None
    }
}

/// Reads a bare digit string worth at most `max`.
fn parse_digits(s: &str, max: u32) -> (r: Option<u32>)
    ensures
        match r {
            Some(v) => s@.len() >= 1 && all_digits(s@) && digits_value(s@) == v as int && v
                <= max,
            None => !(s@.len() >= 1 && all_digits(s@) && digits_value(s@) <= max as int),
        },
{
    let n = s.unicode_len();
    if n == 0 {
        return None;
    }
    let mut acc: u64 = 0;
    let mut j: usize = 0;
    proof {
        assert(s@.subrange(0, 0) =~= Seq::<char>::empty());
    }
    while j < n
        invariant
            0 <= j <= n,
            n == s@.len(),
            all_digits(s@.subrange(0, j as int)),
            acc == digits_value(s@.subrange(0, j as int)),
            acc <= max,
        decreases n - j,
    {
        let c = s.get_char(j);
        let u = c as u32;
        if u < 48 || u > 57 {
            proof {
                assert(!is_digit(s@[j as int]));
            }
            return None;
        }
        let d = (u - 48) as u64;
        proof {
            let pref = s@.subrange(0, j + 1);
            assert(pref.drop_last() =~= s@.subrange(0, j as int));
            assert(pref.last() == s@[j as int]);
            assert(acc * 10 + d <= (max as u64) * 10 + 9) by (nonlinear_arith)
                requires
                    acc <= max,
                    d <= 9,
            ;
        }
        acc = acc * 10 + d;
        if acc > max as u64 {
            proof {
                let k = j + 1;
                assert(acc == digits_value(s@.subrange(0, k)));
                if all_digits(s@) && digits_value(s@) <= max {
                    lemma_digits_value_prefix(s@, k);
                }
            }
            return None;
        }
        j = j + 1;
    }
    proof {
        assert(s@.subrange(0, n as int) =~= s@);
    }
    Some(acc as u32)
}

/// Parses a decimal unsigned integer no larger than `max`, accepting exactly
/// what `str::parse` to an unsigned type would.
pub fn parse_uint_str(s: &str, max: u32) -> (r: Option<u32>)
    ensures
        match r {
            Some(v) => parsed_uint(s@, max as int) == Some(v as int),
            None => parsed_uint(s@, max as int) is None,
        },
{
    let n = s.unicode_len();
    let mut start: usize = 0;
    if n >= 1 && s.get_char(0) == '+' {
        start = 1;
    }
    let rest = s.substring_char(start, n);
    proof {
        if s@.len() >= 1 && s@[0] == '+' {
            assert(rest@ =~= s@.skip(1));
        } else {
            assert(rest@ =~= s@);
        }
    }
    parse_digits(rest, max)
}

/// The character for one decimal digit.
pub open spec fn dec_digit(d: int) -> char {
    if d == 0 {
        '0'
    } else if d == 1 {
        '1'
    } else if d == 2 {
        '2'
    } else if d == 3 {
        '3'
    } else if d == 4 {
        '4'
    } else if d == 5 {
        '5'
    } else if d == 6 {
        '6'
    } else if d == 7 {
        '7'
    } else if d == 8 {
        '8'
    } else {
        '9'
    }
}

/// The decimal rendering of a non-negative number, most significant digit
/// first, no leading zeroes except for the number zero itself.
pub open spec fn dec_str(n: int) -> Seq<char>
    recommends
        n >= 0,
    decreases n,
{
    if n < 10 {
        seq![dec_digit(n)]
    } else {
        dec_str(n / 10).push(dec_digit(n % 10))
    }
}

fn dec_digit_exec(d: u32) -> (c: char)
    requires
        d < 10,
    ensures
        c == dec_digit(d as int),
{
    if d == 0 {
        '0'
    } else if d == 1 {
        '1'
    } else if d == 2 {
        '2'
    } else if d == 3 {
        '3'
    } else if d == 4 {
        '4'
    } else if d == 5 {
        '5'
    } else if d == 6 {
        '6'
    } else if d == 7 {
        '7'
    } else if d == 8 {
        '8'
    } else {
        '9'
    }
}

/// Appends the decimal rendering of `n`.
pub fn push_dec_u32(s: &mut String, n: u32)
    ensures
        final(s)@ == old(s)@ + dec_str(n as int),
    decreases n,
{
    if n < 10 {
        let c = dec_digit_exec(n);
        push_char(s, c);
        proof {
            assert(old(s)@.push(dec_digit(n as int)) =~= old(s)@ + dec_str(n as int));
        }
    } else {
        push_dec_u32(s, n / 10);
        let c = dec_digit_exec(n % 10);
        push_char(s, c);
        proof {
            assert((old(s)@ + dec_str(n as int / 10)).push(dec_digit(n as int % 10)) =~= old(
                s,
            )@ + dec_str(n as int));
        }
    }
}

/// What `str::parse::<i32>` yields: an optional sign, then one or more
/// digits, valued within the range of `i32`.
pub open spec fn parsed_i32(s: Seq<char>) -> Option<int> {
    if s.len() >= 1 && s[0] == '-' {
        let ds = s.skip(1);
        if ds.len() >= 1 && all_digits(ds) && digits_value(ds) <= 0x8000_0000 {
            Some(-digits_value(ds))
        } else {
            None
        }
    } else {
        parsed_uint(s, 0x7FFF_FFFF)
    }
}

/// Parses a decimal `i32`, accepting exactly what `str::parse::<i32>` would.
pub fn parse_i32_str(s: &str) -> (r: Option<i32>)
    ensures
        match r {
            Some(v) => parsed_i32(s@) == Some(v as int),
            None => parsed_i32(s@) is None,
        },
{
    let n = s.unicode_len();
    if n >= 1 && s.get_char(0) == '-' {
        if n >= 2 && s.get_char(1) == '+' {
            // a second sign after the minus: not a number
            proof {
                assert(!is_digit(s@.skip(1)[0]));
            }
            return None;
        }
        let rest = s.substring_char(1, n);
        proof {
            assert(rest@ =~= s@.skip(1));
        }
        match parse_uint_str(rest, 0x8000_0000) {
            Some(m) => {
                if m == 0x8000_0000 {
                    Some(i32::MIN)
                } else {
                    Some(-(m as i32))
                }
            },
            None => None,
        }
    } else {
        match parse_uint_str(s, 0x7FFF_FFFF) {
            Some(v) => Some(v as i32),
            None => None,
        }
    }
}

} // verus!
