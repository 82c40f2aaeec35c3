//! Verified text utilities: counting non-overlapping substring occurrences
//! and rendering numbers in decimal, both used when building reports.

use vstd::prelude::*;

verus! {

/// Number of non-overlapping occurrences of `pat` in `text`, scanning left to
/// right and skipping past each match. An empty pattern matches once at every
/// character boundary, so it occurs `text.len() + 1` times.
pub open spec fn count_occ(text: Seq<char>, pat: Seq<char>) -> nat
    decreases text.len(),
{
    if pat.len() == 0 {
        text.len() + 1
    } else if text.len() < pat.len() {
        0
    } else if text.subrange(0, pat.len() as int) == pat {
        1 + count_occ(text.skip(pat.len() as int), pat)
    } else {
        count_occ(text.skip(1), pat)
    }
}

/// A nonempty pattern cannot occur more often than the text has characters.
pub proof fn lemma_count_occ_le_len(text: Seq<char>, pat: Seq<char>)
    requires
        pat.len() > 0,
    ensures
        count_occ(text, pat) <= text.len(),
    decreases text.len(),
{
    if text.len() < pat.len() {
    } else if text.subrange(0, pat.len() as int) == pat {
        lemma_count_occ_le_len(text.skip(pat.len() as int), pat);
    } else {
        lemma_count_occ_le_len(text.skip(1), pat);
    }
}

/// Whether `pat` occurs in `text` starting at character position `at`.
fn matches_at(text: &str, at: usize, pat: &str) -> (b: bool)
    requires
        at + pat@.len() <= text@.len(),
        text@.len() <= usize::MAX,
    ensures
        b == (text@.subrange(at as int, at + pat@.len()) == pat@),
{
    let plen = pat.unicode_len();
    let mut j: usize = 0;
    while j < plen
        invariant
            j <= plen,
            plen == pat@.len(),
            at + plen <= text@.len(),
            text@.len() <= usize::MAX,
            forall|k: int| 0 <= k < j ==> text@[at + k] == pat@[k],
        decreases plen - j,
    {
        if text.get_char(at + j) != pat.get_char(j) {
            assert(text@.subrange(at as int, at + pat@.len())[j as int] != pat@[j as int]);
            return false;
        }
        j = j + 1;
    }
    proof {
        assert(text@.subrange(at as int, at + pat@.len()) =~= pat@);
    }
    true
}

/// Counts the non-overlapping occurrences of `pat` in `text`, scanning left
/// to right, as `count_occ` describes.
pub fn count_occurrences(text: &str, pat: &str) -> (n: usize)
    requires
        text@.len() < usize::MAX,
    ensures
        n == count_occ(text@, pat@),
{
    let tlen = text.unicode_len();
    let plen = pat.unicode_len();
    if plen == 0 {
        return tlen + 1;
    }
    if tlen < plen {
        return 0;
    }
    let mut i: usize = 0;
    let mut n: usize = 0;
    proof {
        lemma_count_occ_le_len(text@, pat@);
        assert(text@.skip(0) =~= text@);
    }
    while i <= tlen - plen
        invariant
            plen == pat@.len(),
            tlen == text@.len(),
            0 < plen <= tlen,
            i <= tlen,
            n + count_occ(text@.skip(i as int), pat@) == count_occ(text@, pat@),
            count_occ(text@, pat@) <= tlen,
        decreases tlen - i,
    {
        proof {
            lemma_count_occ_le_len(text@.skip(i as int), pat@);
        }
        if matches_at(text, i, pat) {
            proof {
                assert(text@.skip(i as int).subrange(0, plen as int) =~= text@.subrange(
                    i as int,
                    i + plen,
                ));
                assert(text@.skip(i as int).skip(plen as int) =~= text@.skip(i + plen));
            }
            n = n + 1;
            i = i + plen;
        } else {
            proof {
                assert(text@.skip(i as int).subrange(0, plen as int) =~= text@.subrange(
                    i as int,
                    i + plen,
                ));
                assert(text@.skip(i as int).skip(1) =~= text@.skip(i + 1));
            }
            i = i + 1;
        }
    }
    proof {
        assert(count_occ(text@.skip(i as int), pat@) == 0);
    }
    n
}

/// The character for one decimal digit.
pub open spec fn digit_char(d: nat) -> char {
    if d == 0 {
        '0'
    } else if d == 1 {
        '1'
    } else if d == 2 {
        '2'
    } else if d == 3 {
        '3'
    } else if d == 4 {
        '4'
    } else if d == 5 {
        '5'
    } else if d == 6 {
        '6'
    } else if d == 7 {
        '7'
    } else if d == 8 {
        '8'
    } else {
        '9'
    }
}

/// The decimal rendering of `n`, without leading zeroes (a single `'0'`
/// for zero itself).
pub open spec fn dec_rep(n: nat) -> Seq<char>
    decreases n,
{
    if n < 10 {
        seq![digit_char(n)]
    } else {
        dec_rep(n / 10).push(digit_char(n % 10))
    }
}

/// The one-character string for one decimal digit.
fn digit_str(d: usize) -> (r: &'static str)
    requires
        d < 10,
    ensures
        r@ == seq![digit_char(d as nat)],
{
    let r: &'static str = if d == 0 {
        "0"
    } else if d == 1 {
        "1"
    } else if d == 2 {
        "2"
    } else if d == 3 {
        "3"
    } else if d == 4 {
        "4"
    } else if d == 5 {
        "5"
    } else if d == 6 {
        "6"
    } else if d == 7 {
        "7"
    } else if d == 8 {
        "8"
    } else {
        "9"
    };
    proof {
        reveal_strlit("0");
        reveal_strlit("1");
        reveal_strlit("2");
        reveal_strlit("3");
        reveal_strlit("4");
        reveal_strlit("5");
        reveal_strlit("6");
        reveal_strlit("7");
        reveal_strlit("8");
        reveal_strlit("9");
        assert(r@ =~= seq![digit_char(d as nat)]);
    }
    r
}

/// Renders `n` in decimal, as `dec_rep` describes.
pub fn decimal_string(n: usize) -> (s: String)
    ensures
        s@ == dec_rep(n as nat),
    decreases n,
{
    if n < 10 {
        digit_str(n).to_owned()
    } else {
        let mut s = decimal_string(n / 10);
        s.append(digit_str(n % 10));
        proof {
            assert(s@ =~= dec_rep(n as nat));
        }
        s
    }
}

} // verus!
