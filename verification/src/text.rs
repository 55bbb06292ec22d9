//! Character-sequence utilities: decimal rendering, substring replacement
//! and splitting on a separator.

use vstd::prelude::*;
use vstd::utf8::{decode_utf8, valid_utf8};

verus! {

/// The character for a decimal digit `d` (`0 <= d < 10`).
pub open spec fn digit_char(d: nat) -> char {
    (48 + d) as char
}

/// The shortest decimal rendering of `n`, without sign or leading zeros.
pub open spec fn decimal(n: nat) -> Seq<char>
    decreases n,
{
    if n < 10 {
        seq![digit_char(n)]
    } else {
        decimal(n / 10) + seq![digit_char(n % 10)]
    }
}

fn digit(d: u64) -> (c: char)
    requires
        d < 10,
    ensures
        c == digit_char(d as nat),
{
    let b: u8 = 48u8 + (d as u8);
    b as char
}

/// Renders `n` in decimal as a string.
pub fn decimal_string(n: u64) -> (s: String)
    ensures
        s@ == decimal(n as nat),
{
    string_of(decimal_chars(n))
}

/// Where `c` separates `x1` from `y1` and `x2` from `y2` and occurs in
/// neither `x1` nor `x2`, the two splits agree.
pub proof fn lemma_split_at_first(x1: Seq<char>, y1: Seq<char>, x2: Seq<char>, y2: Seq<char>, c: char)
    requires
        x1 + seq![c] + y1 == x2 + seq![c] + y2,
        !x1.contains(c),
        !x2.contains(c),
    ensures
        x1 == x2,
        y1 == y2,
{
    let s = x1 + seq![c] + y1;
    let t = x2 + seq![c] + y2;
    if x1.len() < x2.len() {
        assert(s[x1.len() as int] == c);
        assert(t[x1.len() as int] == x2[x1.len() as int]);
        assert(false);
    } else if x2.len() < x1.len() {
        assert(t[x2.len() as int] == c);
        assert(s[x2.len() as int] == x1[x2.len() as int]);
        assert(false);
    }
    assert(x1 =~= s.take(x1.len() as int));
    assert(x2 =~= t.take(x2.len() as int));
    assert(y1 =~= s.skip(x1.len() as int + 1));
    assert(y2 =~= t.skip(x2.len() as int + 1));
}

/// Where `c` separates `x1` from `y1` and `x2` from `y2` and occurs in
/// neither `y1` nor `y2`, the two splits agree.
pub proof fn lemma_split_at_last(x1: Seq<char>, y1: Seq<char>, x2: Seq<char>, y2: Seq<char>, c: char)
    requires
        x1 + seq![c] + y1 == x2 + seq![c] + y2,
        !y1.contains(c),
        !y2.contains(c),
    ensures
        x1 == x2,
        y1 == y2,
{
    let s = x1 + seq![c] + y1;
    let t = x2 + seq![c] + y2;
    assert(s.len() == t.len());
    if x1.len() < x2.len() {
        assert(t[x2.len() as int] == c);
        assert(s[x2.len() as int] == y1[x2.len() - x1.len() - 1]);
        assert(false);
    } else if x2.len() < x1.len() {
        assert(s[x1.len() as int] == c);
        assert(t[x1.len() as int] == y2[x1.len() - x2.len() - 1]);
        assert(false);
    }
    assert(x1 =~= s.take(x1.len() as int));
    assert(x2 =~= t.take(x2.len() as int));
    assert(y1 =~= s.skip(x1.len() as int + 1));
    assert(y2 =~= t.skip(x2.len() as int + 1));
}

/// Whether `c` is one of the digits `0` to `9`.
pub open spec fn is_digit(c: char) -> bool {
    48 <= (c as int) <= 57
}

proof fn lemma_digit_char(d: nat)
    requires
        d < 10,
    ensures
        digit_char(d) as int == 48 + d,
{
}

/// Every character of a decimal rendering is a digit.
pub proof fn lemma_decimal_digits(n: nat)
    ensures
        decimal(n).len() >= 1,
        forall|i: int| 0 <= i < decimal(n).len() ==> is_digit(#[trigger] decimal(n)[i]),
    decreases n,
{
    if n >= 10 {
        lemma_decimal_digits(n / 10);
    }
}

/// Distinct numbers have distinct decimal renderings.
pub proof fn lemma_decimal_injective(a: nat, b: nat)
    requires
        decimal(a) == decimal(b),
    ensures
        a == b,
    decreases a,
{
    lemma_decimal_digits(a);
    lemma_decimal_digits(b);
    if a < 10 && b < 10 {
        assert(decimal(a)[0] == digit_char(a));
        assert(decimal(b)[0] == digit_char(b));
        lemma_digit_char(a);
        lemma_digit_char(b);
    } else if a < 10 {
        lemma_decimal_digits(b / 10);
        assert(decimal(b).len() >= 2);
        assert(false);
    } else if b < 10 {
        lemma_decimal_digits(a / 10);
        assert(decimal(a).len() >= 2);
        assert(false);
    } else {
        let da = decimal(a);
        let db = decimal(b);
        assert(da.last() == db.last());
        lemma_digit_char(a % 10);
        lemma_digit_char(b % 10);
        assert(da.drop_last() =~= decimal(a / 10));
        assert(db.drop_last() =~= decimal(b / 10));
        lemma_decimal_injective(a / 10, b / 10);
    }
}

/// Renders `n` in decimal, as `u64`'s `Display` does.
pub fn decimal_chars(n: u64) -> (out: Vec<char>)
    ensures
        out@ == decimal(n as nat),
{
    let mut rest: u64 = n;
    let mut suffix: Vec<char> = Vec::new();
    while rest >= 10
        invariant
            decimal(n as nat) == decimal(rest as nat) + suffix@,
        decreases rest,
    {
        let d = digit(rest % 10);
        suffix.insert(0, d);
        rest = rest / 10;
    }
    suffix.insert(0, digit(rest));
    suffix
}


/// `s` with every match of `pat` replaced by `to`, matches taken leftmost
/// first and without overlap; an empty pattern matches before every
/// character and at the end (as `str::replace` does).
pub open spec fn replaced(s: Seq<char>, pat: Seq<char>, to: Seq<char>) -> Seq<char>
    decreases s.len(),
{
    if pat.len() == 0 {
        if s.len() == 0 {
            to
        } else {
            to + seq![s[0]] + replaced(s.drop_first(), pat, to)
        }
    } else if s.len() < pat.len() {
        s
    } else if s.take(pat.len() as int) == pat {
        to + replaced(s.skip(pat.len() as int), pat, to)
    } else {
        seq![s[0]] + replaced(s.drop_first(), pat, to)
    }
}

/// Whether `pat` occurs in `s` starting at index `at`.
fn matches_at(s: &Vec<char>, at: usize, pat: &Vec<char>) -> (res: bool)
    requires
        at + pat@.len() <= s@.len(),
    ensures
        res == (s@.subrange(at as int, at + pat@.len()) == pat@),
{
    let slen = s.len();
    let mut k: usize = 0;
    while k < pat.len()
        invariant
            slen == s@.len(),
            k <= pat@.len(),
            at + pat@.len() <= s@.len(),
            forall|j: int| 0 <= j < k ==> s@[at + j] == pat@[j],
        decreases pat@.len() - k,
    {
        if s[at + k] != pat[k] {
            assert(s@.subrange(at as int, at + pat@.len())[k as int] != pat@[k as int]);
            return false;
        }
        k = k + 1;
    }
    assert(s@.subrange(at as int, at + pat@.len()) =~= pat@);
    true
}

fn push_all(out: &mut Vec<char>, src: &Vec<char>)
    ensures
        final(out)@ == old(out)@ + src@,
{
    let mut k: usize = 0;
    while k < src.len()
        invariant
            k <= src@.len(),
            out@ == old(out)@ + src@.take(k as int),
        decreases src@.len() - k,
    {
        out.push(src[k]);
        k = k + 1;
        assert(src@.take(k as int) =~= src@.take(k - 1) + seq![src@[k - 1]]);
    }
    assert(src@.take(k as int) =~= src@);
}

/// Replaces every match of `pat` in `s` by `to`, as `str::replace` does.
pub fn replace_chars(s: &Vec<char>, pat: &Vec<char>, to: &Vec<char>) -> (out: Vec<char>)
    ensures
        out@ == replaced(s@, pat@, to@),
{
    let n = s.len();
    let m = pat.len();
    let mut out: Vec<char> = Vec::new();
    let mut i: usize = 0;
    assert(s@.skip(0) =~= s@);
    if m == 0 {
        while i < n
            invariant
                n == s@.len(),
                m == pat@.len(),
                m == 0,
                i <= n,
                replaced(s@, pat@, to@) == out@ + replaced(s@.skip(i as int), pat@, to@),
            decreases n - i,
        {
            assert(s@.skip(i as int).drop_first() =~= s@.skip(i + 1));
            push_all(&mut out, to);
            out.push(s[i]);
            i = i + 1;
        }
        push_all(&mut out, to);
    } else {
        while i < n
            invariant
                n == s@.len(),
                m == pat@.len(),
                m > 0,
                i <= n,
                replaced(s@, pat@, to@) == out@ + replaced(s@.skip(i as int), pat@, to@),
            decreases n - i,
        {
            let ghost rest = s@.skip(i as int);
            if m <= n - i && matches_at(s, i, pat) {
                assert(rest.take(m as int) =~= s@.subrange(i as int, i + m));
                assert(rest.skip(m as int) =~= s@.skip(i + m));
                push_all(&mut out, to);
                i = i + m;
            } else {
                assert(rest.drop_first() =~= s@.skip(i + 1));
                if m <= n - i {
                    assert(rest.take(m as int) =~= s@.subrange(i as int, i + m));
                } else {
                    assert(s@.skip(i + 1).len() < m);
                    assert(rest =~= seq![s@[i as int]] + s@.skip(i + 1));
                }
                out.push(s[i]);
                i = i + 1;
            }
        }
    }
    assert(s@.skip(n as int) =~= Seq::<char>::empty());
    out
}


/// The characters of `s`, in order.
pub fn chars_of(s: &str) -> (out: Vec<char>)
    ensures
        out@ == s@,
{
    broadcast use vstd::string::group_string_axioms;
    let mut out: Vec<char> = Vec::new();
    for c in it: s.chars()
        invariant
            out@ == it.seq().take(it.index() as int),
    {
        out.push(c);
    }
    assert(out@ =~= s@);
    out
}


/// Collects characters into a `String`: calls `String::from_iter`, which
/// std documents as appending each character in turn, so the string holds
/// exactly `chars`.
#[verifier::external_body]
pub(crate) fn string_of(chars: Vec<char>) -> (s: String)
    ensures
        s@ == chars@,
{
    String::from_iter(chars)
}

/// Decodes UTF-8: calls `String::from_utf8`, which std documents as
/// succeeding exactly on valid UTF-8 and then holding the decoded text.
#[verifier::external_body]
pub(crate) fn string_from_utf8(bytes: Vec<u8>) -> (res: Option<String>)
    ensures
        res is Some <==> valid_utf8(bytes@),
        res matches Some(s) ==> s@ == decode_utf8(bytes@),
{
    String::from_utf8(bytes).ok()
}

/// The pieces of `s` between occurrences of `sep`, in order; there is always
/// one piece more than there are separators (as `str::split` with a `char`).
pub open spec fn split_on(s: Seq<char>, sep: char) -> Seq<Seq<char>>
    decreases s.len(),
{
    if s.len() == 0 {
        seq![Seq::empty()]
    } else {
        let init = split_on(s.drop_last(), sep);
        if s.last() == sep {
            init.push(Seq::empty())
        } else {
            init.update(init.len() - 1, init.last().push(s.last()))
        }
    }
}

/// Splitting always yields at least one piece.
pub proof fn lemma_split_nonempty(s: Seq<char>, sep: char)
    ensures
        split_on(s, sep).len() >= 1,
    decreases s.len(),
{
    if s.len() > 0 {
        lemma_split_nonempty(s.drop_last(), sep);
    }
}

/// Splits `s` at every `sep`, keeping empty pieces.
pub fn split_chars(s: &Vec<char>, sep: char) -> (pieces: Vec<String>)
    ensures
        pieces@.map_values(|p: String| p@) == split_on(s@, sep),
{
    let n = s.len();
    let mut pieces: Vec<String> = Vec::new();
    let mut cur: Vec<char> = Vec::new();
    let mut i: usize = 0;
    assert(s@.take(0) =~= Seq::<char>::empty());
    while i < n
        invariant
            n == s@.len(),
            i <= n,
            pieces@.map_values(|p: String| p@).push(cur@) == split_on(s@.take(i as int), sep),
        decreases n - i,
    {
        let c = s[i];
        proof {
            lemma_split_nonempty(s@.take(i as int), sep);
            assert(s@.take(i + 1).drop_last() =~= s@.take(i as int));
        }
        if c == sep {
            let ghost before = pieces@;
            let done = string_of(cur);
            let ghost done_view = done@;
            pieces.push(done);
            cur = Vec::new();
            assert(pieces@.map_values(|p: String| p@) =~= before.map_values(|p: String| p@).push(
                done_view,
            ));
        } else {
            cur.push(c);
        }
        i = i + 1;
    }
    let last = string_of(cur);
    pieces.push(last);
    assert(s@.take(n as int) =~= s@);
    pieces
}


/// Whether `pat` occurs somewhere in `s`.
pub open spec fn occurs_in(pat: Seq<char>, s: Seq<char>) -> bool {
    exists|i: int| 0 <= i && i + pat.len() <= s.len() && #[trigger] s.subrange(i, i + pat.len()) == pat
}

/// Replacing a pattern that does not occur leaves the text unchanged.
pub proof fn lemma_replace_absent(s: Seq<char>, pat: Seq<char>, to: Seq<char>)
    requires
        pat.len() > 0,
        !occurs_in(pat, s),
    ensures
        replaced(s, pat, to) == s,
    decreases s.len(),
{
    if s.len() >= pat.len() {
        assert(s.take(pat.len() as int) =~= s.subrange(0, 0int + pat.len()));
        assert(s.subrange(0, 0int + pat.len()) != pat);
        let rest = s.drop_first();
        assert forall|i: int| 0 <= i && i + pat.len() <= rest.len() implies #[trigger] rest.subrange(
            i,
            i + pat.len(),
        ) != pat by {
            assert(rest.subrange(i, i + pat.len()) =~= s.subrange(i + 1, i + 1 + pat.len()));
        }
        lemma_replace_absent(rest, pat, to);
        assert(s =~= seq![s[0]] + rest);
    }
}

/// Where a text starts with a non-empty pattern, the pattern is rewritten
/// there, whatever the replacement holds, and the rest is rewritten after it.
pub proof fn lemma_replace_at_match(s: Seq<char>, pat: Seq<char>, to: Seq<char>)
    requires
        pat.len() > 0,
        pat.len() <= s.len(),
        s.subrange(0, pat.len() as int) == pat,
    ensures
        replaced(s, pat, to) == to + replaced(s.subrange(pat.len() as int, s.len() as int), pat, to),
{
    assert(s.take(pat.len() as int) =~= s.subrange(0, pat.len() as int));
    assert(s.skip(pat.len() as int) =~= s.subrange(pat.len() as int, s.len() as int));
}

/// A pattern followed by any text: the pattern becomes the replacement.
pub proof fn lemma_replace_leading(pat: Seq<char>, rest: Seq<char>, to: Seq<char>)
    requires
        pat.len() > 0,
    ensures
        replaced(pat + rest, pat, to) == to + replaced(rest, pat, to),
{
    let s = pat + rest;
    assert(s.subrange(0, pat.len() as int) =~= pat);
    assert(s.subrange(pat.len() as int, s.len() as int) =~= rest);
    lemma_replace_at_match(s, pat, to);
}

/// Replacing a non-empty pattern in the pattern itself gives the replacement.
pub proof fn lemma_replace_whole(pat: Seq<char>, to: Seq<char>)
    requires
        pat.len() > 0,
    ensures
        replaced(pat, pat, to) == to,
{
    lemma_replace_leading(pat, Seq::empty(), to);
    assert(pat + Seq::<char>::empty() =~= pat);
    assert(replaced(Seq::<char>::empty(), pat, to) =~= Seq::<char>::empty());
    assert(to + Seq::<char>::empty() =~= to);
}

/// Where a text does not start with a non-empty pattern, its first
/// character is kept and the rest is rewritten after it.
pub proof fn lemma_replace_keeps_unmatched_start(s: Seq<char>, pat: Seq<char>, to: Seq<char>)
    requires
        pat.len() > 0,
        s.len() > 0,
        !(pat.len() <= s.len() && s.subrange(0, pat.len() as int) == pat),
    ensures
        replaced(s, pat, to) == seq![s[0]] + replaced(s.drop_first(), pat, to),
{
    if s.len() >= pat.len() {
        assert(s.take(pat.len() as int) =~= s.subrange(0, pat.len() as int));
    } else {
        assert(replaced(s.drop_first(), pat, to) == s.drop_first());
        assert(s =~= seq![s[0]] + s.drop_first());
    }
}

/// The pieces joined back together with `sep` between them.
pub open spec fn join_with(pieces: Seq<Seq<char>>, sep: char) -> Seq<char>
    decreases pieces.len(),
{
    if pieces.len() == 0 {
        Seq::empty()
    } else if pieces.len() == 1 {
        pieces[0]
    } else {
        join_with(pieces.drop_last(), sep) + seq![sep] + pieces.last()
    }
}

/// Splitting at a separator loses nothing: the pieces, joined with the
/// separator, give back the text, and no piece holds the separator.
pub proof fn lemma_split_join(s: Seq<char>, sep: char)
    ensures
        join_with(split_on(s, sep), sep) == s,
        forall|i: int| 0 <= i < split_on(s, sep).len() ==> !(#[trigger] split_on(s, sep)[i]).contains(sep),
    decreases s.len(),
{
    if s.len() > 0 {
        let init = split_on(s.drop_last(), sep);
        lemma_split_join(s.drop_last(), sep);
        lemma_split_nonempty(s.drop_last(), sep);
        let pieces = split_on(s, sep);
        if s.last() == sep {
            assert(pieces.drop_last() =~= init);
            assert(s =~= s.drop_last() + seq![sep] + Seq::<char>::empty());
            assert forall|i: int| 0 <= i < pieces.len() implies !(#[trigger] pieces[i]).contains(sep) by {
                if i < init.len() {
                    assert(pieces[i] == init[i]);
                } else {
                    assert(pieces[i] =~= Seq::<char>::empty());
                }
            }
        } else {
            let last = init.last().push(s.last());
            assert(pieces == init.update(init.len() - 1, last));
            if init.len() == 1 {
                assert(s =~= s.drop_last().push(s.last()));
            } else {
                assert(pieces.drop_last() =~= init.drop_last());
                assert(join_with(init, sep) == join_with(init.drop_last(), sep) + seq![sep] + init.last());
                assert(s.drop_last() == join_with(init.drop_last(), sep) + seq![sep] + init.last());
                assert(s =~= s.drop_last() + seq![s.last()]);
                assert(s =~= join_with(init.drop_last(), sep) + seq![sep] + last);
            }
            assert forall|i: int| 0 <= i < pieces.len() implies !(#[trigger] pieces[i]).contains(sep) by {
                if i < init.len() - 1 {
                    assert(pieces[i] == init[i]);
                } else {
                    assert(pieces[i] == last);
                    assert(!init[init.len() - 1].contains(sep));
                    if last.contains(sep) {
                        let k = choose|k: int| 0 <= k < last.len() && last[k] == sep;
                        if k < last.len() - 1 {
                            assert(init.last()[k] == sep);
                        }
                    }
                }
            }
        }
    }
}

} // verus!
