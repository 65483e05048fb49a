//! Character-level helpers on strings: conversions between `str`, `String`
//! and character vectors, comparison, substitution and decimal formatting.
use vstd::prelude::*;
use vstd::std_specs::iter::IteratorSpec;

verus! {

/// Appends one character to a `String` (std's `String::push`).
///
/// Claims that the string's characters afterwards are the old ones followed by `c`,
/// which is what std documents for `push`.
#[verifier::external_body]
pub(crate) fn push_char(s: &mut String, c: char)
    ensures
        final(s)@ == old(s)@.push(c),
{
    s.push(c);
}

/// The characters of `s`, in order.
pub fn to_chars(s: &str) -> (r: Vec<char>)
    ensures
        r@ == s@,
{
    let mut r: Vec<char> = Vec::new();
    let n = s.unicode_len();
    let mut it = s.chars();
    let ghost all = s@;
    proof {
        broadcast use vstd::string::axiom_spec_iter;
    }
    let mut i: usize = 0;
    while i < n
        invariant
            n == s@.len(),
            i <= n,
            r@ == s@.take(i as int),
            it.remaining() == s@.skip(i as int),
            it.obeys_prophetic_iter_laws(),
        decreases n - i,
    {
        let c = it.next();
        proof {
            broadcast use vstd::string::next_postcondition;
        }
        match c {
            Some(ch) => {
                r.push(ch);
            },
            None => {
                assert(false);
            },
        }
        i = i + 1;
        assert(r@ =~= s@.take(i as int));
        assert(it.remaining() =~= s@.skip(i as int));
    }
    assert(r@ =~= s@);
    r
}

/// The characters `v[lo..hi]` as a `String`.
pub fn string_from_range(v: &Vec<char>, lo: usize, hi: usize) -> (r: String)
    requires
        lo <= hi <= v@.len(),
    ensures
        r@ == v@.subrange(lo as int, hi as int),
{
    let mut r = String::new();
    let mut i = lo;
    while i < hi
        invariant
            lo <= i <= hi <= v@.len(),
            r@ == v@.subrange(lo as int, i as int),
        decreases hi - i,
    {
        push_char(&mut r, v[i]);
        i = i + 1;
        assert(r@ =~= v@.subrange(lo as int, i as int));
    }
    r
}

/// A copy of `s` as an owned `String`.
pub fn owned(s: &str) -> (r: String)
    ensures
        r@ == s@,
{
    String::from_str(s)
}

/// Whether `a` and `b` hold the same characters.
pub fn str_eq(a: &str, b: &str) -> (r: bool)
    ensures
        r == (a@ == b@),
{
    let ca = to_chars(a);
    let cb = to_chars(b);
    if ca.len() != cb.len() {
        return false;
    }
    let mut i: usize = 0;
    while i < ca.len()
        invariant
            ca@ == a@,
            cb@ == b@,
            ca@.len() == cb@.len(),
            i <= ca@.len(),
            forall|j: int| 0 <= j < i ==> ca@[j] == cb@[j],
        decreases ca@.len() - i,
    {
        if ca[i] != cb[i] {
            return false;
        }
        i = i + 1;
    }
    assert(a@ =~= b@);
    true
}

/// Whether `pat` occurs in `s` at position `i`.
pub open spec fn occurs_at(s: Seq<char>, pat: Seq<char>, i: int) -> bool {
    0 <= i && i + pat.len() <= s.len() && s.subrange(i, i + pat.len()) == pat
}

/// `s` with every occurrence of the non-empty pattern `from` replaced by `to`,
/// scanning from the left and never reconsidering replaced text (std's `str::replace`).
pub open spec fn replace_all(s: Seq<char>, from: Seq<char>, to: Seq<char>) -> Seq<char>
    decreases s.len(),
{
    if s.len() == 0 || from.len() == 0 {
        s
    } else if occurs_at(s, from, 0) {
        to + replace_all(s.skip(from.len() as int), from, to)
    } else {
        seq![s[0]] + replace_all(s.drop_first(), from, to)
    }
}

/// Whether the characters of `pat` appear at `v[i..]`.
fn matches_at(v: &Vec<char>, pat: &Vec<char>, i: usize) -> (r: bool)
    requires
        i <= v@.len(),
    ensures
        r == occurs_at(v@.skip(i as int), pat@, 0),
{
    if pat.len() > v.len() - i {
        return false;
    }
    let mut k: usize = 0;
    while k < pat.len()
        invariant
            i + pat@.len() <= v@.len(),
            v@.len() == v.len(),
            k <= pat@.len(),
            forall|j: int| 0 <= j < k ==> v@[i + j] == pat@[j],
        decreases pat@.len() - k,
    {
        if v[i + k] != pat[k] {
            assert(v@.skip(i as int).subrange(0, pat@.len() as int)[k as int] != pat@[k as int]);
            return false;
        }
        k = k + 1;
    }
    assert(v@.skip(i as int).subrange(0, pat@.len() as int) =~= pat@);
    true
}

/// Replacing text by text without the character `c` brings no `c` into a text that had
/// none.
pub proof fn lemma_replace_keeps_out(s: Seq<char>, from: Seq<char>, to: Seq<char>, c: char)
    requires
        !s.contains(c),
        !to.contains(c),
    ensures
        !replace_all(s, from, to).contains(c),
    decreases s.len(),
{
    if s.len() > 0 && from.len() > 0 {
        if occurs_at(s, from, 0) {
            let rest = s.skip(from.len() as int);
            assert(!rest.contains(c)) by {
                if rest.contains(c) {
                    let j = choose|j: int| 0 <= j < rest.len() && rest[j] == c;
                    assert(s[j + from.len()] == c);
                }
            }
            lemma_replace_keeps_out(rest, from, to, c);
            let r = replace_all(rest, from, to);
            assert(!(to + r).contains(c)) by {
                if (to + r).contains(c) {
                    let j = choose|j: int| 0 <= j < (to + r).len() && (to + r)[j] == c;
                    if j < to.len() {
                        assert(to[j] == c);
                    } else {
                        assert(r[j - to.len()] == c);
                    }
                }
            }
        } else {
            let rest = s.drop_first();
            assert(!rest.contains(c)) by {
                if rest.contains(c) {
                    let j = choose|j: int| 0 <= j < rest.len() && rest[j] == c;
                    assert(s[j + 1] == c);
                }
            }
            lemma_replace_keeps_out(rest, from, to, c);
            let r = replace_all(rest, from, to);
            assert(!(seq![s[0]] + r).contains(c)) by {
                if (seq![s[0]] + r).contains(c) {
                    let j = choose|j: int| 0 <= j < (seq![s[0]] + r).len() && (seq![s[0]] + r)[j] == c;
                    if j == 0 {
                        assert(s[0] == c);
                    } else {
                        assert(r[j - 1] == c);
                    }
                }
            }
        }
    }
}

/// Replacing every `c` by text without `c` leaves no `c`.
pub proof fn lemma_replace_removes(s: Seq<char>, c: char, to: Seq<char>)
    requires
        !to.contains(c),
    ensures
        !replace_all(s, seq![c], to).contains(c),
    decreases s.len(),
{
    if s.len() > 0 {
        if occurs_at(s, seq![c], 0) {
            let rest = s.skip(1);
            lemma_replace_removes(rest, c, to);
            let r = replace_all(rest, seq![c], to);
            assert(!(to + r).contains(c)) by {
                if (to + r).contains(c) {
                    let j = choose|j: int| 0 <= j < (to + r).len() && (to + r)[j] == c;
                    if j < to.len() {
                        assert(to[j] == c);
                    } else {
                        assert(r[j - to.len()] == c);
                    }
                }
            }
        } else {
            assert(s.subrange(0, 1) =~= seq![s[0]]);
            assert(s[0] != c);
            let rest = s.drop_first();
            lemma_replace_removes(rest, c, to);
            let r = replace_all(rest, seq![c], to);
            assert(!(seq![s[0]] + r).contains(c)) by {
                if (seq![s[0]] + r).contains(c) {
                    let j = choose|j: int| 0 <= j < (seq![s[0]] + r).len() && (seq![s[0]] + r)[j] == c;
                    if j == 0 {
                        assert(s[0] == c);
                    } else {
                        assert(r[j - 1] == c);
                    }
                }
            }
        }
    }
}

/// `s` with every occurrence of `from` replaced by `to` (see [`replace_all`]).
pub fn replace_str(s: &str, from: &str, to: &str) -> (r: String)
    requires
        from@.len() > 0,
    ensures
        r@ == replace_all(s@, from@, to@),
{
    let v = to_chars(s);
    let pat = to_chars(from);
    let mut r = String::new();
    let mut i: usize = 0;
    assert(v@.skip(0) =~= v@);
    while i < v.len()
        invariant
            v@ == s@,
            pat@ == from@,
            from@.len() > 0,
            i <= v@.len(),
            r@ + replace_all(v@.skip(i as int), from@, to@) == replace_all(s@, from@, to@),
        decreases v@.len() - i,
    {
        let ghost rest = v@.skip(i as int);
        if matches_at(&v, &pat, i) {
            r.append(to);
            assert(rest.skip(from@.len() as int) =~= v@.skip(i + pat@.len()));
            i = i + pat.len();
        } else {
            push_char(&mut r, v[i]);
            assert(rest.drop_first() =~= v@.skip(i + 1));
            i = i + 1;
        }
        assert(r@ + replace_all(v@.skip(i as int), from@, to@) =~= replace_all(s@, from@, to@));
    }
    r
}


/// The character of the decimal digit `d` (`0 <= d <= 9`).
pub open spec fn digit_char(d: nat) -> char {
    ((d + 48) as u8) as char
}

/// The decimal notation of `n`, without leading zeros (std's `to_string` on integers).
pub open spec fn decimal(n: nat) -> Seq<char>
    decreases n,
{
    if n < 10 {
        seq![digit_char(n)]
    } else {
        decimal(n / 10).push(digit_char(n % 10))
    }
}

/// The decimal notation of `n`.
pub fn decimal_string(n: u64) -> (r: String)
    ensures
        r@ == decimal(n as nat),
    decreases n,
{
    if n < 10 {
        let mut r = String::new();
        push_char(&mut r, ((n as u8) + 48u8) as char);
        assert(r@ =~= decimal(n as nat));
        r
    } else {
        let mut r = decimal_string(n / 10);
        push_char(&mut r, (((n % 10) as u8) + 48u8) as char);
        r
    }
}

/// Position of the first line feed in `s`, or its length when there is none.
pub open spec fn newline_at(s: Seq<char>) -> nat
    decreases s.len(),
{
    if s.len() == 0 {
        0
    } else if s[0] == '\n' {
        0
    } else {
        1 + newline_at(s.drop_first())
    }
}

/// `s` without one trailing carriage return.
pub open spec fn strip_cr(s: Seq<char>) -> Seq<char> {
    if s.len() > 0 && s.last() == '\r' {
        s.drop_last()
    } else {
        s
    }
}

/// The lines of `s` as std's `str::lines` yields them: split after each line feed,
/// the line feed and one carriage return before it removed, no empty line after a
/// final line feed.
pub open spec fn split_lines(s: Seq<char>) -> Seq<Seq<char>>
    decreases s.len(),
{
    if s.len() == 0 {
        seq![]
    } else {
        let i = newline_at(s);
        if i >= s.len() {
            seq![s]
        } else {
            seq![strip_cr(s.take(i as int))] + split_lines(s.skip(i as int + 1))
        }
    }
}

/// The character sequences of a sequence of strings.
pub open spec fn views(v: Seq<String>) -> Seq<Seq<char>> {
    v.map_values(|x: String| x@)
}

/// The first line feed of `t` is at `k`, when `t[k]` is one (or `k` is the end) and
/// none comes before.
pub proof fn lemma_newline_at(t: Seq<char>, k: int)
    requires
        0 <= k <= t.len(),
        k < t.len() ==> t[k] == '\n',
        forall|j: int| 0 <= j < k ==> t[j] != '\n',
    ensures
        newline_at(t) == k,
    decreases t.len(),
{
    if t.len() > 0 && k > 0 {
        assert(t[0] != '\n');
        lemma_newline_at(t.drop_first(), k - 1);
    }
}

/// The lines of `s` (std's `str::lines`).
pub fn lines_of(s: &str) -> (r: Vec<String>)
    ensures
        views(r@) == split_lines(s@),
{
    let v = to_chars(s);
    let n = v.len();
    let mut r: Vec<String> = Vec::new();
    let mut start: usize = 0;
    let mut i: usize = 0;
    assert(v@.skip(0) =~= v@);
    while i < n
        invariant
            v@ == s@,
            n == v@.len(),
            start <= i <= n,
            forall|j: int| start <= j < i ==> v@[j] != '\n',
            views(r@) + split_lines(v@.skip(start as int)) == split_lines(s@),
        decreases n - i,
    {
        if v[i] == '\n' {
            let ghost t = v@.skip(start as int);
            proof {
                lemma_newline_at(t, i - start);
            }
            let end = if i > start && v[i - 1] == '\r' {
                i - 1
            } else {
                i
            };
            let line = string_from_range(&v, start, end);
            assert(line@ == strip_cr(t.take(i - start)));
            assert(t.skip(i - start + 1) =~= v@.skip(i + 1));
            let ghost before = r@;
            r.push(line);
            assert(views(r@) =~= views(before).push(line@));
            start = i + 1;
        }
        i = i + 1;
    }
    if start < n {
        let ghost t = v@.skip(start as int);
        proof {
            lemma_newline_at(t, n - start);
        }
        let line = string_from_range(&v, start, n);
        assert(line@ =~= t);
        let ghost before = r@;
        r.push(line);
        assert(views(r@) =~= views(before).push(line@));
        assert(split_lines(t) =~= seq![t]);
    } else {
        assert(v@.skip(start as int).len() == 0);
    }
    assert(views(r@) =~= split_lines(s@));
    r
}

} // verus!
