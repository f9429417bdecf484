//! Whitespace normalization: every run of whitespace collapses to a
//! single space, and leading and trailing whitespace is dropped, before
//! the grammar is applied.

use vstd::prelude::*;

verus! {

/// A whitespace character (the Unicode white-space set).
pub open spec fn is_space_char(c: char) -> bool {
    c == ' ' || c == '\t' || c == '\n' || c == '\u{b}' || c == '\u{c}' || c == '\r' || c
        == '\u{85}' || c == '\u{a0}' || c == '\u{1680}' || (0x2000 <= c as u32 && c as u32
        <= 0x200a) || c == '\u{2028}' || c == '\u{2029}' || c == '\u{202f}' || c == '\u{205f}'
        || c == '\u{3000}'
}

/// Normalization from position `i` on.  `started` says whether a
/// non-space character has been emitted already, and `pending` whether a
/// space is owed before the next word; a space is emitted only between
/// two words, so leading and trailing whitespace disappears.
pub open spec fn norm_from(s: Seq<char>, i: int, started: bool, pending: bool) -> Seq<char>
    decreases s.len() - i,
{
    if i < 0 || i >= s.len() {
        Seq::empty()
    } else if is_space_char(s[i]) {
        norm_from(s, i + 1, started, started)
    } else if pending {
        seq![' ', s[i]] + norm_from(s, i + 1, true, false)
    } else {
        seq![s[i]] + norm_from(s, i + 1, true, false)
    }
}

/// The whitespace-normalized form of a text.
pub open spec fn normalize(s: Seq<char>) -> Seq<char> {
    norm_from(s, 0, false, false)
}

/// Decides `is_space_char`.
pub fn is_space(c: char) -> (b: bool)
    ensures
        b == is_space_char(c),
{
    c == ' ' || c == '\t' || c == '\n' || c == '\u{b}' || c == '\u{c}' || c == '\r' || c
        == '\u{85}' || c == '\u{a0}' || c == '\u{1680}' || (0x2000 <= c as u32 && c as u32
        <= 0x200a) || c == '\u{2028}' || c == '\u{2029}' || c == '\u{202f}' || c == '\u{205f}'
        || c == '\u{3000}'
}

/// Collapses whitespace runs to single spaces and trims both ends.
pub fn normalize_chars(s: &Vec<char>) -> (out: Vec<char>)
    ensures
        out@ == normalize(s@),
{
    let n = s.len();
    let mut out: Vec<char> = Vec::new();
    let mut started: bool = false;
    let mut pending: bool = false;
    let mut i: usize = 0;
    while i < n
        invariant
            n == s@.len(),
            i <= n,
            normalize(s@) == out@ + norm_from(s@, i as int, started, pending),
        decreases n - i,
    {
        let c = s[i];
        if is_space(c) {
            proof {
                assert(norm_from(s@, i as int, started, pending) == norm_from(
                    s@,
                    i + 1 as int,
                    started,
                    started,
                ));
            }
            pending = started;
        } else if pending {
            proof {
                let rest = norm_from(s@, i + 1 as int, true, false);
                assert(norm_from(s@, i as int, started, pending) == seq![' ', c] + rest);
                assert(out@ + (seq![' ', c] + rest) =~= (out@ + seq![' ', c]) + rest);
                assert(out@.push(' ').push(c) =~= out@ + seq![' ', c]);
            }
            out.push(' ');
            out.push(c);
            started = true;
            pending = false;
        } else {
            proof {
                let rest = norm_from(s@, i + 1 as int, true, false);
                assert(norm_from(s@, i as int, started, pending) == seq![c] + rest);
                assert(out@ + (seq![c] + rest) =~= (out@ + seq![c]) + rest);
                assert(out@.push(c) =~= out@ + seq![c]);
            }
            out.push(c);
            started = true;
        }
        i = i + 1;
    }
    proof {
        assert(norm_from(s@, n as int, started, pending) == Seq::<char>::empty());
        assert(out@ + Seq::<char>::empty() =~= out@);
    }
    out
}

} // verus!
