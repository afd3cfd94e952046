//! Splitting chat messages into words.
use vstd::prelude::*;
use crate::text::{trim, chars_of, trim_bounds, is_space_char, trim_start_index, trim_end_index, lemma_trim_start_index, lemma_trim_end_index};

verus! {

/// Whether `i` is the position of the first space `' '` in `s`.
pub open spec fn is_first_space(s: Seq<char>, i: int) -> bool {
    &&& 0 <= i < s.len()
    &&& s[i] == ' '
    &&& forall|j: int| 0 <= j < i ==> s[j] != ' '
}

/// Whether `s` contains a space `' '`.
pub open spec fn has_space(s: Seq<char>) -> bool {
    exists|i: int| 0 <= i < s.len() && s[i] == ' '
}

/// The meaning of `opt_next_space`: with a space at first position `i`, the trimmed text
/// before it and the trimmed text from it on; without a space, the whole input and nothing.
pub open spec fn next_space_split(s: Seq<char>) -> (Seq<char>, Option<Seq<char>>) {
    if has_space(s) {
        let i = choose|i: int| is_first_space(s, i);
        (trim(s.take(i)), Some(trim(s.skip(i))))
    } else {
        (s, None)
    }
}

/// Splits `input` at its first space. Always returns the left half (trimmed when a space is
/// found). With a space, the right half (trimmed, the space included before trimming) is
/// `Some`; without one it is `None` and the left half is the input unchanged.
pub fn opt_next_space(input: &str) -> (r: (&str, Option<&str>))
    ensures
        r.0@ == next_space_split(input@).0,
        r.1 is Some <==> next_space_split(input@).1 is Some,
        r.1 matches Some(right) ==> right@ == next_space_split(input@).1->0,
{
    let v = chars_of(input);
    let n = v.len();
    let mut i: usize = 0;
    while i < n && v[i] != ' '
        invariant
            n == v@.len(),
            v@ == input@,
            i <= n,
            forall|j: int| 0 <= j < i ==> v@[j] != ' ',
        decreases n - i,
    {
        i = i + 1;
    }
    if i == n {
        assert(!has_space(input@));
        return (input, None);
    }
    assert(is_first_space(input@, i as int));
    let ghost k = choose|k: int| is_first_space(input@, k);
    assert(k == i) by {
        if k < i {
            assert(input@[k] != ' ');
        } else if k > i {
            assert(input@[i as int] != ' ');
        }
    }
    let (lb, le) = trim_bounds(&v, 0, i);
    let (rb, re) = trim_bounds(&v, i, n);
    assert(v@.subrange(0, i as int) =~= input@.take(i as int));
    assert(v@.subrange(i as int, n as int) =~= input@.skip(i as int));
    let left = input.substring_char(lb, le);
    let right = input.substring_char(rb, re);
    (left, Some(right))
}

/// `trim` leaves no whitespace at either end.
pub proof fn lemma_trim_ends(s: Seq<char>)
    ensures
        trim(s).len() > 0 ==> !is_space_char(trim(s)[0]) && !is_space_char(trim(s).last()),
        trim(s).len() <= s.len(),
{
    lemma_trim_start_index(s);
    lemma_trim_end_index(s);
}

/// A sequence with a space has a first space.
pub proof fn lemma_first_space_exists(s: Seq<char>)
    requires
        has_space(s),
    ensures
        exists|i: int| is_first_space(s, i),
    decreases s.len(),
{
    if s[0] == ' ' {
        assert(is_first_space(s, 0));
    } else {
        let j = choose|j: int| 0 <= j < s.len() && s[j] == ' ';
        assert(s.drop_first()[j - 1] == ' ');
        lemma_first_space_exists(s.drop_first());
        let k = choose|k: int| is_first_space(s.drop_first(), k);
        assert forall|m: int| 0 <= m < k + 1 implies s[m] != ' ' by {
            if m > 0 {
                assert(s[m] == s.drop_first()[m - 1]);
            }
        }
        assert(is_first_space(s, k + 1));
    }
}

/// When the input has a space, the left half holds no space and neither half starts or ends
/// with whitespace.
pub proof fn law_split_halves_trimmed(s: Seq<char>)
    requires
        has_space(s),
    ensures
        !next_space_split(s).0.contains(' '),
        next_space_split(s).0.len() > 0 ==> !is_space_char(next_space_split(s).0[0])
            && !is_space_char(next_space_split(s).0.last()),
        next_space_split(s).1->0.len() > 0 ==> !is_space_char(next_space_split(s).1->0[0])
            && !is_space_char(next_space_split(s).1->0.last()),
{
    lemma_first_space_exists(s);
    let i = choose|i: int| is_first_space(s, i);
    let l = s.take(i);
    lemma_trim_ends(l);
    lemma_trim_ends(s.skip(i));
    lemma_trim_start_index(l);
    lemma_trim_end_index(l);
    if trim(l).contains(' ') {
        let k = choose|k: int| 0 <= k < trim(l).len() && trim(l)[k] == ' ';
        if trim_start_index(l) < trim_end_index(l) {
            assert(trim(l)[k] == l[trim_start_index(l) + k]);
        }
    }
}

} // verus!
