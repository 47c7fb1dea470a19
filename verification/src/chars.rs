use vstd::prelude::*;
use vstd::string::StrSliceExecFns;

verus! {

/// Whether `c` counts as alphanumeric. The exact set of characters is
/// Unicode's and is not written out here; it depends on the character alone.
pub uninterp spec fn is_alphanum(c: char) -> bool;

/// Relies on `char::is_alphanumeric`: a deterministic classification of the
/// character alone, named here by [`is_alphanum`].
pub assume_specification[ char::is_alphanumeric ](c: char) -> (r: bool)
    ensures
        r == is_alphanum(c),
;

/// Whether `u` is a Unicode scalar value: a code point outside the
/// surrogate range, which is what a `char` can hold.
pub open spec fn valid_char_code(u: int) -> bool {
    (0 <= u && u <= 0xD7FF) || (0xE000 <= u && u <= 0x10FFFF)
}

/// Relies on `char::from_u32`: its documentation promises `Some` exactly
/// for Unicode scalar values, and `None` for surrogates and values past
/// `char::MAX`.
pub assume_specification[ char::from_u32 ](u: u32) -> (r: Option<char>)
    ensures
        valid_char_code(u as int) ==> r == Some(u as char),
        !valid_char_code(u as int) ==> r is None,
;

/// The characters whose code points lie between `lo` and `hi` inclusive,
/// in ascending code-point order. Code points that are not characters
/// (the surrogate range) are left out; when `lo > hi` the sequence is empty.
pub open spec fn char_range(lo: int, hi: int) -> Seq<char>
    decreases hi - lo + 1,
{
    if lo > hi {
        Seq::empty()
    } else if valid_char_code(hi) {
        char_range(lo, hi - 1).push(hi as char)
    } else {
        char_range(lo, hi - 1)
    }
}

/// A range holds exactly the characters whose code points lie between
/// its bounds.
pub proof fn lemma_char_range_members(lo: int, hi: int, c: char)
    ensures
        char_range(lo, hi).contains(c) <==> (lo <= c as int <= hi),
    decreases hi - lo + 1,
{
    if lo > hi {
        assert(!char_range(lo, hi).contains(c));
    } else {
        lemma_char_range_members(lo, hi - 1, c);
        let s0 = char_range(lo, hi - 1);
        if valid_char_code(hi) {
            let s1 = s0.push(hi as char);
            if s1.contains(c) {
                let k = choose|k: int| 0 <= k < s1.len() && s1[k] == c;
                if k < s0.len() {
                    assert(s0[k] == c);
                    assert(s0.contains(c));
                } else {
                    assert(c == hi as char);
                }
            }
            if s0.contains(c) {
                let k = choose|k: int| 0 <= k < s0.len() && s0[k] == c;
                assert(s1[k] == c);
                assert(s1.contains(c));
            }
            if c as int == hi {
                assert(s1[s0.len() as int] == c);
                assert(s1.contains(c));
            }
        } else {
            // `hi` is a surrogate code point, which no character has.
            assert(valid_char_code(c as int));
        }
    }
}

/// The characters of `s`, one per element.
pub fn chars_vec(s: &str) -> (v: Vec<char>)
    ensures
        v@ == s@,
{
    let n = s.unicode_len();
    let mut v: Vec<char> = Vec::new();
    let mut i: usize = 0;
    while i < n
        invariant
            n == s@.len(),
            i <= n,
            v@ == s@.subrange(0, i as int),
        decreases n - i,
    {
        v.push(s.get_char(i));
        i = i + 1;
        proof {
            assert(v@ =~= s@.subrange(0, i as int));
        }
    }
    proof {
        assert(v@ =~= s@);
    }
    v
}

/// Whether `v` holds the character `c`.
pub fn contains_char(v: &Vec<char>, c: char) -> (r: bool)
    ensures
        r == v@.contains(c),
{
    let mut k: usize = 0;
    while k < v.len()
        invariant
            k <= v@.len(),
            forall|m: int| 0 <= m < k ==> v@[m] != c,
        decreases v@.len() - k,
    {
        if v[k] == c {
            proof {
                assert(v@.contains(c));
            }
            return true;
        }
        k = k + 1;
    }
    proof {
        assert(forall|m: int| 0 <= m < v@.len() ==> v@[m] != c);
    }
    false
}

} // verus!
