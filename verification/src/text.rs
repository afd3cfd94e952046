//! Character-level helpers on strings: whitespace, trimming, comparison.
use vstd::prelude::*;

verus! {

/// The Unicode `White_Space` property, which `char::is_whitespace` follows.
pub open spec fn is_space_char(c: char) -> bool {
    let u = c as u32;
    ||| 0x09 <= u <= 0x0d
    ||| u == 0x20
    ||| u == 0x85
    ||| u == 0xa0
    ||| u == 0x1680
    ||| 0x2000 <= u <= 0x200a
    ||| u == 0x2028
    ||| u == 0x2029
    ||| u == 0x202f
    ||| u == 0x205f
    ||| u == 0x3000
}

/// Index of the first character that is not whitespace (the length if there is none).
pub open spec fn trim_start_index(s: Seq<char>) -> int
    decreases s.len(),
{
    if s.len() == 0 || !is_space_char(s[0]) {
        0
    } else {
        1 + trim_start_index(s.drop_first())
    }
}

/// Index just past the last character that is not whitespace (0 if there is none).
pub open spec fn trim_end_index(s: Seq<char>) -> int
    decreases s.len(),
{
    if s.len() == 0 || !is_space_char(s.last()) {
        s.len() as int
    } else {
        trim_end_index(s.drop_last())
    }
}

/// `s` without leading and trailing whitespace, as `str::trim` gives it.
pub open spec fn trim(s: Seq<char>) -> Seq<char> {
    let b = trim_start_index(s);
    let e = trim_end_index(s);
    if b < e { s.subrange(b, e) } else { Seq::empty() }
}

/// Whether `c` has the `White_Space` property.
pub fn is_space(c: char) -> (r: bool)
    ensures
        r == is_space_char(c),
{
    let u = c as u32;
    (0x09 <= u && u <= 0x0d) || u == 0x20 || u == 0x85 || u == 0xa0 || u == 0x1680 || (0x2000
        <= u && u <= 0x200a) || u == 0x2028 || u == 0x2029 || u == 0x202f || u == 0x205f || u
        == 0x3000
}

/// What `trim_start_index` points at.
pub proof fn lemma_trim_start_index(s: Seq<char>)
    ensures
        0 <= trim_start_index(s) <= s.len(),
        forall|i: int| 0 <= i < trim_start_index(s) ==> is_space_char(#[trigger] s[i]),
        trim_start_index(s) < s.len() ==> !is_space_char(s[trim_start_index(s)]),
    decreases s.len(),
{
    if s.len() > 0 && is_space_char(s[0]) {
        lemma_trim_start_index(s.drop_first());
        assert forall|i: int| 0 <= i < trim_start_index(s) implies is_space_char(#[trigger] s[i]) by {
            if i > 0 {
                assert(s[i] == s.drop_first()[i - 1]);
            }
        }
    }
}

/// What `trim_end_index` points at.
pub proof fn lemma_trim_end_index(s: Seq<char>)
    ensures
        0 <= trim_end_index(s) <= s.len(),
        forall|i: int| trim_end_index(s) <= i < s.len() ==> is_space_char(#[trigger] s[i]),
        trim_end_index(s) > 0 ==> !is_space_char(s[trim_end_index(s) - 1]),
    decreases s.len(),
{
    if s.len() > 0 && is_space_char(s.last()) {
        lemma_trim_end_index(s.drop_last());
        assert forall|i: int| trim_end_index(s) <= i < s.len() implies is_space_char(#[trigger] s[i]) by {
            if i < s.len() - 1 {
                assert(s[i] == s.drop_last()[i]);
            }
        }
    }
}

/// A scan from the front stops exactly at `trim_start_index`.
proof fn lemma_start_scan(s: Seq<char>, k: int)
    requires
        0 <= k <= s.len(),
        forall|i: int| 0 <= i < k ==> is_space_char(#[trigger] s[i]),
        k == s.len() || !is_space_char(s[k]),
    ensures
        trim_start_index(s) == k,
    decreases s.len(),
{
    if k > 0 {
        assert(is_space_char(s[0]));
        assert forall|i: int| 0 <= i < k - 1 implies is_space_char(#[trigger] s.drop_first()[i]) by {
            assert(s.drop_first()[i] == s[i + 1]);
        }
        if k < s.len() {
            assert(s.drop_first()[k - 1] == s[k]);
        }
        lemma_start_scan(s.drop_first(), k - 1);
    }
}

/// A scan from the back stops exactly at `trim_end_index`.
proof fn lemma_end_scan(s: Seq<char>, k: int)
    requires
        0 <= k <= s.len(),
        forall|i: int| k <= i < s.len() ==> is_space_char(#[trigger] s[i]),
        k == 0 || !is_space_char(s[k - 1]),
    ensures
        trim_end_index(s) == k,
    decreases s.len(),
{
    if k < s.len() {
        assert(is_space_char(s[s.len() - 1]));
        assert forall|i: int| k <= i < s.len() - 1 implies is_space_char(#[trigger] s.drop_last()[i]) by {
            assert(s.drop_last()[i] == s[i]);
        }
        if k > 0 {
            assert(s.drop_last()[k - 1] == s[k - 1]);
        }
        lemma_end_scan(s.drop_last(), k);
    }
}

/// The characters of `s`, in order.
pub fn chars_of(s: &str) -> (v: Vec<char>)
    ensures
        v@ == s@,
{
    let mut v: Vec<char> = Vec::new();
    for c in it: s.chars()
        invariant
            v@ == it.seq().take(it.index() as int),
    {
        v.push(c);
    }
    v
}

/// The bounds `(b, e)` of `str::trim` on the characters `v[from..to]`.
pub fn trim_bounds(v: &Vec<char>, from: usize, to: usize) -> (r: (usize, usize))
    requires
        from <= to <= v@.len(),
    ensures
        ({
            let s = v@.subrange(from as int, to as int);
            &&& from <= r.0 <= r.1 <= to
            &&& v@.subrange(r.0 as int, r.1 as int) == trim(s)
        }),
{
    let ghost s = v@.subrange(from as int, to as int);
    let mut b = from;
    while b < to && is_space(v[b])
        invariant
            from <= b <= to <= v@.len(),
            s == v@.subrange(from as int, to as int),
            forall|i: int| from <= i < b ==> is_space_char(#[trigger] v@[i]),
        decreases to - b,
    {
        b = b + 1;
    }
    let mut e = to;
    while e > b && is_space(v[e - 1])
        invariant
            from <= b <= e <= to <= v@.len(),
            s == v@.subrange(from as int, to as int),
            forall|i: int| e <= i < to ==> is_space_char(#[trigger] v@[i]),
        decreases e - b,
    {
        e = e - 1;
    }
    proof {
        assert forall|i: int| 0 <= i < b - from implies is_space_char(#[trigger] s[i]) by {
            assert(s[i] == v@[from + i]);
        }
        if b < to {
            assert(s[b - from] == v@[b as int]);
        }
        lemma_start_scan(s, b - from);
        lemma_trim_start_index(s);
        if b < to {
            // a non-space character exists at b, so the back scan stops at or after b + 1
            assert(e > b) by {
                if e == b {
                    assert(is_space_char(v@[b as int]));
                }
            }
            assert forall|i: int| e - from <= i < s.len() implies is_space_char(#[trigger] s[i]) by {
                assert(s[i] == v@[from + i]);
            }
            assert(s[e - from - 1] == v@[e - 1]);
            lemma_end_scan(s, e - from);
            assert(v@.subrange(b as int, e as int) =~= s.subrange(b - from, e - from));
        } else {
            lemma_trim_end_index(s);
            assert(v@.subrange(b as int, e as int) =~= Seq::<char>::empty());
        }
    }
    (b, e)
}

/// Whether two strings hold the same characters.
pub fn same_text(a: &str, b: &str) -> (r: bool)
    ensures
        r == (a@ == b@),
{
    let x = a.to_owned();
    let y = b.to_owned();
    x == y
}

/// Whether `s` begins with `prefix`.
pub fn starts_with_text(s: &str, prefix: &str) -> (r: bool)
    ensures
        r == (prefix@.len() <= s@.len() && s@.take(prefix@.len() as int) == prefix@),
{
    let n = s.unicode_len();
    let m = prefix.unicode_len();
    if m > n {
        return false;
    }
    let mut i: usize = 0;
    while i < m
        invariant
            n == s@.len(),
            m == prefix@.len(),
            m <= n,
            i <= m,
            forall|j: int| 0 <= j < i ==> s@[j] == prefix@[j],
        decreases m - i,
    {
        if s.get_char(i) != prefix.get_char(i) {
            assert(s@.take(m as int)[i as int] != prefix@[i as int]);
            return false;
        }
        i = i + 1;
    }
    assert(s@.take(m as int) =~= prefix@);
    true
}

} // verus!
