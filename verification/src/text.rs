//! Text helpers: splitting on a pattern, decimal rendering, building strings.

use vstd::prelude::*;

verus! {

broadcast use vstd::string::group_string_axioms;

// ---------------------------------------------------------------------------
// Splitting
// ---------------------------------------------------------------------------

/// `p` occurs in `s` starting at position `i`.
pub open spec fn occurs_at(s: Seq<char>, p: Seq<char>, i: int) -> bool {
    0 <= i && i + p.len() <= s.len() && s.subrange(i, i + p.len()) == p
}

/// The leftmost position at or after `from` where the non-empty pattern `p`
/// occurs in `s`.
pub open spec fn find_from(s: Seq<char>, p: Seq<char>, from: int) -> Option<int>
    decreases s.len() - from,
{
    if p.len() == 0 || from < 0 || from + p.len() > s.len() {
        None
    } else if occurs_at(s, p, from) {
        Some(from)
    } else {
        find_from(s, p, from + 1)
    }
}

/// The pieces of `s` from position `start` on, cut at each leftmost
/// non-overlapping occurrence of the non-empty pattern `p` (what
/// `str::split` yields).
pub open spec fn split_from(s: Seq<char>, p: Seq<char>, start: int) -> Seq<Seq<char>>
    decreases s.len() - start,
{
    if p.len() == 0 || start < 0 || start > s.len() {
        seq![s.subrange(start, s.len() as int)]
    } else {
        match find_from(s, p, start) {
            None => seq![s.subrange(start, s.len() as int)],
            Some(i) => {
                proof {
                    lemma_find_from(s, p, start);
                }
                seq![s.subrange(start, i)] + split_from(s, p, i + p.len())
            },
        }
    }
}

/// The pieces of `s` cut at every occurrence of `p`.
pub open spec fn split_on(s: Seq<char>, p: Seq<char>) -> Seq<Seq<char>> {
    split_from(s, p, 0)
}

/// What `find_from` returns is an occurrence, the first one at or after `from`.
pub proof fn lemma_find_from(s: Seq<char>, p: Seq<char>, from: int)
    ensures
        find_from(s, p, from) matches Some(i) ==> from <= i && occurs_at(s, p, i) && p.len()
            > 0,
        forall|j: int|
            #![trigger occurs_at(s, p, j)]
            0 <= from <= j && p.len() > 0 && occurs_at(s, p, j) ==> find_from(s, p, from) is Some
                && find_from(s, p, from)->0 <= j,
    decreases s.len() - from,
{
    if p.len() == 0 || from < 0 || from + p.len() > s.len() {
    } else if occurs_at(s, p, from) {
    } else {
        lemma_find_from(s, p, from + 1);
    }
}

/// The pieces put back together with `sep` between them.
pub open spec fn join(pieces: Seq<Seq<char>>, sep: Seq<char>) -> Seq<char>
    decreases pieces.len(),
{
    if pieces.len() == 0 {
        seq![]
    } else if pieces.len() == 1 {
        pieces[0]
    } else {
        pieces[0] + sep + join(pieces.drop_first(), sep)
    }
}

/// There is always at least one piece.
pub proof fn lemma_split_from_nonempty(s: Seq<char>, p: Seq<char>, start: int)
    ensures
        split_from(s, p, start).len() >= 1,
{
}

/// Joining the pieces from `start` on gives back the text from `start` on.
pub proof fn lemma_split_from_join(s: Seq<char>, p: Seq<char>, start: int)
    requires
        0 <= start <= s.len(),
        p.len() > 0,
    ensures
        join(split_from(s, p, start), p) == s.subrange(start, s.len() as int),
    decreases s.len() - start,
{
    match find_from(s, p, start) {
        None => {},
        Some(i) => {
            lemma_find_from(s, p, start);
            let next = i + p.len();
            lemma_split_from_join(s, p, next);
            lemma_split_from_nonempty(s, p, next);
            let rest = split_from(s, p, next);
            let piece = s.subrange(start, i);
            assert((seq![piece] + rest).drop_first() =~= rest);
            assert((seq![piece] + rest)[0] == piece);
            assert(s.subrange(start, s.len() as int) =~= piece + p + s.subrange(
                next,
                s.len() as int,
            ));
        },
    }
}

/// Splitting loses nothing: the pieces of `s` cut at `p`, joined back with
/// `p`, are `s` again.
pub proof fn law_split_then_join(s: Seq<char>, p: Seq<char>)
    requires
        p.len() > 0,
    ensures
        join(split_on(s, p), p) == s,
{
    lemma_split_from_join(s, p, 0);
    assert(s.subrange(0, s.len() as int) =~= s);
}

/// The end of the piece that starts at `start`: the next occurrence of `p`,
/// or the end of `s`.
pub open spec fn piece_end(s: Seq<char>, p: Seq<char>, start: int) -> int {
    match find_from(s, p, start) {
        Some(i) => i,
        None => s.len() as int,
    }
}

/// The first two pieces: the text before the leftmost occurrence of `p`
/// (all of `s` when there is none, and then nothing else), and the text
/// after it up to the next occurrence or the end.
pub proof fn law_split_first_pieces(s: Seq<char>, p: Seq<char>)
    requires
        p.len() > 0,
    ensures
        split_on(s, p).len() > 1 <==> find_from(s, p, 0) is Some,
        find_from(s, p, 0) is None ==> split_on(s, p) == seq![s],
        find_from(s, p, 0) matches Some(i) ==> split_on(s, p)[0] == s.subrange(0, i),
        find_from(s, p, 0) matches Some(i) ==> split_on(s, p)[1] == s.subrange(
            i + p.len(),
            piece_end(s, p, i + p.len()),
        ),
{
    lemma_find_from(s, p, 0);
    match find_from(s, p, 0) {
        None => {
            assert(s.subrange(0, s.len() as int) =~= s);
        },
        Some(i) => {
            let next = i + p.len();
            lemma_find_from(s, p, next);
            lemma_split_from_nonempty(s, p, next);
            assert(split_on(s, p) == seq![s.subrange(0, i)] + split_from(s, p, next));
            assert(split_from(s, p, next)[0] == s.subrange(next, piece_end(s, p, next)));
        },
    }
}

/// The last piece is a tail of `s` holding no occurrence of `p`, and,
/// unless it is all of `s`, it comes right after an occurrence of `p`.
pub proof fn lemma_split_last(s: Seq<char>, p: Seq<char>, start: int)
    requires
        p.len() > 0,
        0 <= start <= s.len(),
    ensures
        exists|j: int|
            start <= j <= s.len() && split_from(s, p, start).last() == s.subrange(j, s.len() as int)
                && find_from(s, p, j) is None && (j > start ==> occurs_at(s, p, j - p.len())),
    decreases s.len() - start,
{
    match find_from(s, p, start) {
        None => {
            assert(split_from(s, p, start).last() == s.subrange(start, s.len() as int));
        },
        Some(i) => {
            lemma_find_from(s, p, start);
            let next = i + p.len();
            lemma_split_last(s, p, next);
            lemma_split_from_nonempty(s, p, next);
            let rest = split_from(s, p, next);
            assert((seq![s.subrange(start, i)] + rest).last() == rest.last());
            let j = choose|j: int|
                next <= j <= s.len() && rest.last() == s.subrange(j, s.len() as int) && find_from(
                    s,
                    p,
                    j,
                ) is None && (j > next ==> occurs_at(s, p, j - p.len()));
            assert(j > start);
        },
    }
}

/// The last piece of `s` cut at `/` is its tail after the last `/`: a
/// tail of `s` with no `/` in it, that is either all of `s` or comes right
/// after a `/`.
pub proof fn law_last_piece(s: Seq<char>)
    ensures
        ({
            let r = split_on(s, seq!['/']).last();
            &&& r.len() <= s.len()
            &&& s.subrange(s.len() - r.len(), s.len() as int) == r
            &&& forall|i: int| 0 <= i < r.len() ==> r[i] != '/'
            &&& r.len() < s.len() ==> s[s.len() - r.len() - 1] == '/'
        }),
{
    let p = seq!['/'];
    lemma_split_last(s, p, 0);
    let r = split_on(s, p).last();
    let j = choose|j: int|
        0 <= j <= s.len() && r == s.subrange(j, s.len() as int) && find_from(s, p, j) is None && (j
            > 0 ==> occurs_at(s, p, j - 1));
    lemma_find_from(s, p, j);
    assert forall|i: int| 0 <= i < r.len() implies r[i] != '/' by {
        if r[i] == '/' {
            assert(s.subrange(j + i, j + i + 1) =~= p);
            assert(occurs_at(s, p, j + i));
        }
    }
    if j > 0 {
        assert(s.subrange(j - 1, j)[0] == s[j - 1]);
    }
}

/// Appends one character (std's `String::push`).
#[verifier::external_body]
pub(crate) fn push_char(s: &mut String, c: char)
    ensures
        final(s)@ == old(s)@.push(c),
{
    s.push(c);
}

/// The characters of `s`, in order.
pub fn chars_of(s: &str) -> (r: Vec<char>)
    ensures
        r@ == s@,
{
    let mut r: Vec<char> = Vec::new();
    for c in it: s.chars()
        invariant
            it.seq() == s@,
            r@ == it.seq().take(it.index() as int),
    {
        r.push(c);
    }
    r
}

/// The string made of `v[lo..hi]`.
pub fn string_of(v: &Vec<char>, lo: usize, hi: usize) -> (r: String)
    requires
        lo <= hi <= v.len(),
    ensures
        r@ == v@.subrange(lo as int, hi as int),
{
    let mut r = String::new();
    let mut k = lo;
    while k < hi
        invariant
            lo <= k <= hi <= v.len(),
            r@ == v@.subrange(lo as int, k as int),
        decreases hi - k,
    {
        push_char(&mut r, v[k]);
        assert(v@.subrange(lo as int, k + 1) == v@.subrange(lo as int, k as int).push(v@[k as int]));
        k += 1;
    }
    r
}

/// Whether `p` occurs in `s` at position `i`.
fn occurs_at_exec(s: &Vec<char>, p: &Vec<char>, i: usize) -> (r: bool)
    ensures
        r == occurs_at(s@, p@, i as int),
{
    if i > s.len() || p.len() > s.len() - i {
        return false;
    }
    let mut k: usize = 0;
    while k < p.len()
        invariant
            i + p.len() <= s.len(),
            k <= p.len(),
            forall|j: int| 0 <= j < k ==> s@[i + j] == p@[j],
        decreases p.len() - k,
    {
        if s[i + k] != p[k] {
            assert(s@.subrange(i as int, i + p.len())[k as int] != p@[k as int]);
            return false;
        }
        k += 1;
    }
    assert(s@.subrange(i as int, i + p.len()) =~= p@);
    true
}

/// The leftmost occurrence of `p` in `s` at or after `from`.
fn find_exec(s: &Vec<char>, p: &Vec<char>, from: usize) -> (r: Option<usize>)
    ensures
        r matches Some(i) ==> find_from(s@, p@, from as int) == Some(i as int),
        r is None ==> find_from(s@, p@, from as int) is None,
{
    if p.len() == 0 || p.len() > s.len() {
        return None;
    }
    let mut k = from;
    while k <= s.len() - p.len()
        invariant
            0 < p.len() <= s.len(),
            from <= k,
            find_from(s@, p@, from as int) == find_from(s@, p@, k as int),
        decreases s.len() - k,
    {
        if occurs_at_exec(s, p, k) {
            return Some(k);
        }
        k += 1;
    }
    None
}

/// Piece `n` (counting from 0) of `s` cut at each occurrence of the
/// non-empty `p`, as `s.split(p).nth(n)` gives it.
pub fn split_nth(s: &str, p: &str, n: usize) -> (r: Option<String>)
    requires
        p@.len() > 0,
    ensures
        r is Some <==> n < split_on(s@, p@).len(),
        r matches Some(piece) ==> piece@ == split_on(s@, p@)[n as int],
{
    let sv = chars_of(s);
    let pv = chars_of(p);
    let slen = sv.len();
    let mut start: usize = 0;
    let mut i: usize = 0;
    let ghost mut done: Seq<Seq<char>> = seq![];
    while i < n
        invariant
            sv@ == s@,
            pv@ == p@,
            slen == sv@.len(),
            pv@.len() > 0,
            start <= sv@.len(),
            i <= n,
            done.len() == i,
            split_on(s@, p@) == done + split_from(s@, p@, start as int),
        decreases n - i,
    {
        match find_exec(&sv, &pv, start) {
            None => {
                assert(split_on(s@, p@).len() == i + 1);
                return None;
            },
            Some(at) => {
                proof {
                    lemma_find_from(s@, p@, start as int);
                    let piece = s@.subrange(start as int, at as int);
                    assert(split_from(s@, p@, start as int) == seq![piece] + split_from(
                        s@,
                        p@,
                        at + p@.len(),
                    ));
                    assert(done + split_from(s@, p@, start as int) =~= done.push(piece)
                        + split_from(s@, p@, at + p@.len()));
                    done = done.push(piece);
                }
                start = at + pv.len();
                i += 1;
            },
        }
    }
    let end = match find_exec(&sv, &pv, start) {
        None => sv.len(),
        Some(at) => {
            proof {
                lemma_find_from(s@, p@, start as int);
            }
            at
        },
    };
    Some(string_of(&sv, start, end))
}

/// The last piece of `s` cut at each occurrence of the non-empty `p`, as
/// `s.split(p).last()` gives it (the whole of `s` when `p` does not occur).
pub fn split_last(s: &str, p: &str) -> (r: String)
    requires
        p@.len() > 0,
    ensures
        r@ == split_on(s@, p@).last(),
{
    let sv = chars_of(s);
    let pv = chars_of(p);
    let slen = sv.len();
    let mut start: usize = 0;
    loop
        invariant
            sv@ == s@,
            pv@ == p@,
            pv@.len() > 0,
            slen == sv@.len(),
            start <= sv@.len(),
            split_on(s@, p@).last() == split_from(s@, p@, start as int).last(),
        decreases slen - start,
    {
        match find_exec(&sv, &pv, start) {
            None => {
                return string_of(&sv, start, slen);
            },
            Some(at) => {
                proof {
                    lemma_find_from(s@, p@, start as int);
                    let rest = split_from(s@, p@, at + p@.len());
                    assert(split_from(s@, p@, start as int) == seq![
                        s@.subrange(start as int, at as int),
                    ] + rest);
                    assert((seq![s@.subrange(start as int, at as int)] + rest).last() == rest.last());
                }
                start = at + pv.len();
            },
        }
    }
}

// ---------------------------------------------------------------------------
// Decimal rendering
// ---------------------------------------------------------------------------

/// The character of the decimal digit `d`.
pub open spec fn digit_char(d: int) -> char {
    (d + 48) as char
}

/// The decimal digits of `n`, most significant first, without leading zeros
/// (what `Display` gives for an unsigned integer).
pub open spec fn decimal(n: nat) -> Seq<char>
    decreases n,
{
    if n < 10 {
        seq![digit_char(n as int)]
    } else {
        decimal(n / 10).push(digit_char((n % 10) as int))
    }
}

/// `n` in decimal, padded with a leading zero to at least two digits
/// (the `{:02}` format).
pub open spec fn decimal_pad2(n: nat) -> Seq<char> {
    if n < 10 {
        seq!['0'] + decimal(n)
    } else {
        decimal(n)
    }
}

/// A signed integer in decimal, with a leading `-` when negative.
pub open spec fn signed_decimal(x: int) -> Seq<char> {
    if x < 0 {
        seq!['-'] + decimal((-x) as nat)
    } else {
        decimal(x as nat)
    }
}

/// The number a string of decimal digits denotes.
pub open spec fn digits_value(d: Seq<char>) -> int
    decreases d.len(),
{
    if d.len() == 0 {
        0
    } else {
        digits_value(d.drop_last()) * 10 + (d.last() as int - 48)
    }
}

/// Decimal rendering is faithful: the digits written for `n` denote `n`,
/// and they are all decimal digits.
pub proof fn law_decimal_denotes(n: nat)
    ensures
        digits_value(decimal(n)) == n,
        forall|i: int| 0 <= i < decimal(n).len() ==> '0' <= #[trigger] decimal(n)[i] <= '9',
    decreases n,
{
    if n < 10 {
        assert(decimal(n).drop_last() =~= seq![]);
        assert(digit_char(n as int) as int == n + 48);
    } else {
        law_decimal_denotes(n / 10);
        assert(decimal(n).drop_last() =~= decimal(n / 10));
        assert(digit_char((n % 10) as int) as int == n % 10 + 48);
        assert(decimal(n).last() == digit_char((n % 10) as int));
        assert(n == (n / 10) * 10 + n % 10) by (nonlinear_arith);
    }
    assert(digits_value(decimal(n)) == digits_value(decimal(n).drop_last()) * 10 + (decimal(
        n,
    ).last() as int - 48));
}

/// The decimal digits of `n` start with a non-zero digit unless `n` is 0,
/// and there are at least two of them from 10 on.
pub proof fn lemma_decimal_shape(n: nat)
    ensures
        decimal(n).len() >= 1,
        n >= 10 ==> decimal(n).len() >= 2,
        n >= 1 ==> decimal(n)[0] != '0',
    decreases n,
{
    if n >= 10 {
        lemma_decimal_shape(n / 10);
        assert(decimal(n)[0] == decimal(n / 10)[0]);
    } else {
        assert(digit_char(n as int) as int == n + 48);
    }
}

/// A leading zero does not change the number denoted.
pub proof fn lemma_leading_zero(d: Seq<char>)
    ensures
        digits_value(seq!['0'] + d) == digits_value(d),
    decreases d.len(),
{
    if d.len() == 0 {
        assert((seq!['0'] + d).drop_last() =~= seq![]);
        assert((seq!['0'] + d).last() == '0');
        assert('0' as int == 48);
        assert(digits_value(seq!['0'] + d) == digits_value((seq!['0'] + d).drop_last()) * 10 + ((
        seq!['0'] + d).last() as int - 48));
        assert(digits_value(seq![]) == 0);
    } else {
        let z = seq!['0'] + d;
        lemma_leading_zero(d.drop_last());
        assert(z.drop_last() =~= seq!['0'] + d.drop_last());
        assert(z.last() == d.last());
        assert(digits_value(z) == digits_value(z.drop_last()) * 10 + (z.last() as int - 48));
        assert(digits_value(d) == digits_value(d.drop_last()) * 10 + (d.last() as int - 48));
    }
}

/// The two-digit form denotes `n` in decimal digits: at least two of them,
/// a leading zero only when `n` is below 10.
pub proof fn law_decimal_pad2(n: nat)
    ensures
        digits_value(decimal_pad2(n)) == n,
        decimal_pad2(n).len() >= 2,
        forall|i: int| 0 <= i < decimal_pad2(n).len() ==> '0' <= #[trigger] decimal_pad2(n)[i] <= '9',
        decimal_pad2(n).len() > 2 ==> decimal_pad2(n)[0] != '0',
        n < 10 ==> decimal_pad2(n) == seq!['0', digit_char(n as int)],
{
    law_decimal_denotes(n);
    lemma_decimal_shape(n);
    if n < 10 {
        lemma_leading_zero(decimal(n));
        assert(decimal_pad2(n) =~= seq!['0', digit_char(n as int)]);
        assert forall|i: int| 0 <= i < decimal_pad2(n).len() implies '0' <= #[trigger] decimal_pad2(
            n,
        )[i] <= '9' by {
            if i == 1 {
                assert(decimal_pad2(n)[1] == decimal(n)[0]);
            }
        }
    }
}

/// `d` is how `n` is written in decimal: digits only, at least one, no
/// leading zero unless it is the only digit, and denoting `n`.
pub open spec fn written_as(d: Seq<char>, n: int) -> bool {
    &&& d.len() >= 1
    &&& forall|i: int| 0 <= i < d.len() ==> '0' <= #[trigger] d[i] <= '9'
    &&& d.len() > 1 ==> d[0] != '0'
    &&& digits_value(d) == n
}

/// `d` is how the signed `x` is written: a `-` before the magnitude when
/// `x` is negative.
pub open spec fn written_signed(d: Seq<char>, x: int) -> bool {
    if x < 0 {
        d.len() >= 1 && d[0] == '-' && written_as(d.drop_first(), -x)
    } else {
        written_as(d, x)
    }
}

/// `decimal` writes every number the usual way.
pub proof fn law_decimal_written(n: nat)
    ensures
        written_as(decimal(n), n as int),
{
    law_decimal_denotes(n);
    lemma_decimal_shape(n);
}

/// `signed_decimal` writes every integer the usual way.
pub proof fn law_signed_written(x: int)
    ensures
        written_signed(signed_decimal(x), x),
{
    if x < 0 {
        law_decimal_written((-x) as nat);
        assert((seq!['-'] + decimal((-x) as nat)).drop_first() =~= decimal((-x) as nat));
    } else {
        law_decimal_written(x as nat);
    }
}

/// Appends the decimal digits of `n`.
pub fn push_decimal(s: &mut String, n: u64)
    ensures
        final(s)@ == old(s)@ + decimal(n as nat),
    decreases n,
{
    if n >= 10 {
        push_decimal(s, n / 10);
    }
    let d: u8 = (n % 10) as u8;
    push_char(s, (d + 48) as char);
    proof {
        assert(old(s)@ + decimal(n as nat) =~= old(s)@ + decimal((n / 10) as nat).push(
            digit_char((n % 10) as int),
        ) || n < 10);
    }
}

/// Appends `n` in decimal, zero-padded to two digits.
pub fn push_decimal_pad2(s: &mut String, n: u64)
    ensures
        final(s)@ == old(s)@ + decimal_pad2(n as nat),
{
    if n < 10 {
        push_char(s, '0');
    }
    push_decimal(s, n);
}

/// Appends a signed integer in decimal.
pub fn push_signed_decimal(s: &mut String, x: i32)
    ensures
        final(s)@ == old(s)@ + signed_decimal(x as int),
{
    if x < 0 {
        push_char(s, '-');
        let magnitude: u64 = (-(x as i64)) as u64;
        push_decimal(s, magnitude);
    } else {
        push_decimal(s, x as u64);
    }
}

/// `n` rendered in decimal.
pub fn decimal_string(n: u64) -> (r: String)
    ensures
        r@ == decimal(n as nat),
{
    let mut r = String::new();
    push_decimal(&mut r, n);
    r
}

} // verus!
