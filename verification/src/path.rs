//! Text operations on request paths.
//!
//! Paths are compared and searched as sequences of characters; the functions
//! here connect `&str` values to that model.

use vstd::prelude::*;
use vstd::std_specs::iter::IteratorSpec;
use vstd::utf8::{encode_utf8, encode_utf8_decode_utf8};

verus! {

/// Whether `s` holds the character `c` at some position.
pub open spec fn has_char(s: Seq<char>, c: char) -> bool {
    exists|i: int| 0 <= i < s.len() && s[i] == c
}

/// `s` without its leading run of the character `c`.
pub open spec fn trim_leading(s: Seq<char>, c: char) -> Seq<char>
    decreases s.len(),
{
    if s.len() > 0 && s[0] == c {
        trim_leading(s.drop_first(), c)
    } else {
        s
    }
}

/// Trimming removes a prefix made of `c` alone, and what is left does not
/// begin with `c`.
pub proof fn lemma_trim_leading_splits(s: Seq<char>, c: char)
    ensures
        trim_leading(s, c).len() <= s.len(),
        trim_leading(s, c) == s.skip(s.len() - trim_leading(s, c).len()),
        forall|i: int| 0 <= i < s.len() - trim_leading(s, c).len() ==> s[i] == c,
        trim_leading(s, c).len() > 0 ==> trim_leading(s, c)[0] != c,
    decreases s.len(),
{
    if s.len() > 0 && s[0] == c {
        let rest = s.drop_first();
        lemma_trim_leading_splits(rest, c);
        let cut = rest.len() - trim_leading(rest, c).len();
        assert(rest.skip(cut) =~= s.skip(cut + 1));
        assert forall|i: int| 0 <= i < cut + 1 implies s[i] == c by {
            if i > 0 {
                assert(s[i] == rest[i - 1]);
            }
        }
    } else {
        assert(s.skip(0) =~= s);
    }
}

/// Trimming a leading run of `c` keeps every occurrence of another character.
pub proof fn lemma_trim_leading_keeps(s: Seq<char>, c: char, other: char)
    requires
        other != c,
    ensures
        has_char(trim_leading(s, c), other) == has_char(s, other),
{
    lemma_trim_leading_splits(s, c);
    let rest = trim_leading(s, c);
    let cut = s.len() - rest.len();
    if has_char(rest, other) {
        let i = choose|i: int| 0 <= i < rest.len() && rest[i] == other;
        assert(s[cut + i] == other);
    }
    if has_char(s, other) {
        let i = choose|i: int| 0 <= i < s.len() && s[i] == other;
        assert(rest[i - cut] == other);
    }
}

/// Whether two strings hold the same characters.
pub fn same_text(a: &str, b: &str) -> (same: bool)
    ensures
        same == (a@ == b@),
{
    let x = a.as_bytes();
    let y = b.as_bytes();
    if x.len() != y.len() {
        return false;
    }
    let mut i: usize = 0;
    while i < x.len()
        invariant
            i <= x.len(),
            x.len() == y.len(),
            x@ == encode_utf8(a@),
            y@ == encode_utf8(b@),
            forall|j: int| 0 <= j < i ==> x@[j] == y@[j],
        decreases x.len() - i,
    {
        if x[i] != y[i] {
            return false;
        }
        i += 1;
    }
    proof {
        // Equal encodings decode to equal texts.
        assert(x@ =~= y@);
        encode_utf8_decode_utf8(a@);
        encode_utf8_decode_utf8(b@);
    }
    true
}

/// Whether `text` holds the character `c`.
#[verifier::loop_isolation(false)]
pub fn contains_char(text: &str, c: char) -> (found: bool)
    ensures
        found == has_char(text@, c),
{
    let mut found = false;
    let chars = text.chars();
    for x in it: chars
        invariant
            it.seq() == text@,
            found == (exists|i: int| 0 <= i < it.index() && text@[i] == c),
    {
        if x == c {
            found = true;
        }
    }
    found
}

/// `text` without its leading run of the character `c`.
pub fn trim_start<'a>(text: &'a str, c: char) -> (rest: &'a str)
    ensures
        rest@ == trim_leading(text@, c),
{
    let total = text.unicode_len();
    let mut chars = text.chars();
    let mut skipped: usize = 0;
    loop
        invariant_except_break
            chars.remaining() == text@.skip(skipped as int),
            trim_leading(text@, c) == trim_leading(text@.skip(skipped as int), c),
        invariant
            skipped <= total == text@.len(),
            chars.obeys_prophetic_iter_laws(),
        ensures
            skipped <= total == text@.len(),
            trim_leading(text@, c) == text@.skip(skipped as int),
        decreases total - skipped,
    {
        let ghost before = text@.skip(skipped as int);
        match chars.next() {
            Some(x) => {
                if x != c {
                    break;
                }
                assert(before.drop_first() == text@.skip(skipped + 1));
                skipped += 1;
            },
            None => {
                break;
            },
        }
    }
    text.substring_char(skipped, total)
}

} // verus!
