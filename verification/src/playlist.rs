//! Playlist files: the entries of an `.m3u` file, and the progress shown while covers
//! are looked up.
use vstd::prelude::*;

use crate::text::{decimal, decimal_string, newline_at, push_char, string_from_range, to_chars, views};

verus! {

/// The non-empty pieces of `s` between line feeds, in order.
pub open spec fn spec_entries(s: Seq<char>) -> Seq<Seq<char>>
    decreases s.len(),
{
    let i = newline_at(s);
    let piece = s.take(i as int);
    let first = if piece.len() > 0 {
        seq![piece]
    } else {
        Seq::empty()
    };
    if i >= s.len() {
        first
    } else {
        first + spec_entries(s.skip(i as int + 1))
    }
}

/// The entries of a playlist file: its lines, split at line feeds only, without the
/// empty ones.
pub fn playlist_entries(content: &str) -> (r: Vec<String>)
    ensures
        views(r@) == spec_entries(content@),
{
    let v = to_chars(content);
    let n = v.len();
    let mut r: Vec<String> = Vec::new();
    let mut start: usize = 0;
    let mut i: usize = 0;
    assert(v@.skip(0) =~= v@);
    while i < n
        invariant
            v@ == content@,
            n == v@.len(),
            start <= i <= n,
            forall|j: int| start <= j < i ==> v@[j] != '\n',
            views(r@) + spec_entries(v@.skip(start as int)) == spec_entries(content@),
        decreases n - i,
    {
        if v[i] == '\n' {
            let ghost t = v@.skip(start as int);
            proof {
                crate::text::lemma_newline_at(t, i - start);
            }
            assert(t.skip(i - start + 1) =~= v@.skip(i + 1));
            if i > start {
                let piece = string_from_range(&v, start, i);
                assert(piece@ =~= t.take(i - start));
                let ghost before = r@;
                r.push(piece);
                assert(views(r@) =~= views(before).push(piece@));
            } else {
                assert(t.take(0).len() == 0);
            }
            start = i + 1;
        }
        i = i + 1;
    }
    let ghost t = v@.skip(start as int);
    proof {
        crate::text::lemma_newline_at(t, n - start);
    }
    if start < n {
        let piece = string_from_range(&v, start, n);
        assert(piece@ =~= t.take(t.len() as int));
        let ghost before = r@;
        r.push(piece);
        assert(views(r@) =~= views(before).push(piece@));
    } else {
        assert(t.take(0).len() == 0);
    }
    assert(views(r@) =~= spec_entries(content@));
    r
}

/// The escape sequence that moves the cursor one line up.
pub const LINE_UP: &'static str = "\x1B[1A";

/// The progress line after the `n`-th track (from zero) of `size`: `n+1/size`, written
/// over the line before from the second track on.
pub open spec fn spec_progress_line(n: nat, size: nat) -> Seq<char> {
    let count = decimal(n + 1) + "/"@ + decimal(size);
    if n > 0 {
        LINE_UP@ + count
    } else {
        count
    }
}

/// The progress line after the `n`-th track of `size` (see [`spec_progress_line`]).
pub fn progress_line(n: usize, size: usize) -> (r: String)
    requires
        n < usize::MAX,
    ensures
        r@ == spec_progress_line(n as nat, size as nat),
{
    let mut r = String::new();
    if n > 0 {
        r.append(LINE_UP);
    }
    r.append(decimal_string((n + 1) as u64).as_str());
    push_char(&mut r, '/');
    r.append(decimal_string(size as u64).as_str());
    proof {
        reveal_strlit("/");
    }
    assert(r@ =~= spec_progress_line(n as nat, size as nat));
    r
}

} // verus!
