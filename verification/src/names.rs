//! Canonical and short type names.
//!
//! A type may be referred to by its fully qualified path or by its
//! unqualified (short) name: the segment after the last `::`. The
//! lenient comparator used by the typed accessors accepts either an
//! exact match or a match of the short names.

use vstd::prelude::*;
use vstd::string::StrSliceExecFns;
use vstd::utf8::encode_utf8_decode_utf8;

use crate::value::byte_vec_eq;

verus! {

/// A module separator `::` starts at position `j` of `s`.
pub open spec fn sep_at(s: Seq<char>, j: int) -> bool {
    0 <= j && j + 2 <= s.len() && s[j] == ':' && s[j + 1] == ':'
}

/// `s` contains a module separator somewhere.
pub open spec fn has_sep(s: Seq<char>) -> bool {
    exists|j: int| sep_at(s, j)
}

/// The unqualified (short) form of a type name: the segment after
/// the last module separator, or the whole name if it has none.
pub open spec fn short_name_spec(s: Seq<char>) -> Seq<char>
    decreases s.len(),
{
    if s.len() >= 2 && s[0] == ':' && s[1] == ':' {
        short_name_spec(s.skip(2))
    } else if s.len() >= 1 && has_sep(s) {
        short_name_spec(s.skip(1))
    } else {
        s
    }
}

/// Two names refer to the same type under the lenient rule: they are
/// equal outright, or their short forms are equal.
pub open spec fn names_compatible(a: Seq<char>, b: Seq<char>) -> bool {
    a == b || short_name_spec(a) == short_name_spec(b)
}

/// Law: every name is compatible with itself under the lenient
/// comparison, so a value registered under its canonical name always
/// accepts an accessor asking for exactly that name.
pub proof fn lemma_names_compatible_reflexive(a: Seq<char>)
    ensures
        names_compatible(a, a),
{
}

/// A name without any separator is its own short form.
proof fn lemma_short_no_sep(s: Seq<char>)
    requires
        !has_sep(s),
    ensures
        short_name_spec(s) == s,
{
    if s.len() >= 2 && s[0] == ':' && s[1] == ':' {
        assert(sep_at(s, 0));
    }
}

/// Skipping past the first separator preserves the short form.
proof fn lemma_short_skips_first_sep(s: Seq<char>, k: int)
    requires
        sep_at(s, k),
        forall|j: int| 0 <= j < k ==> !((#[trigger] s[j]) == ':' && s[j + 1] == ':'),
    ensures
        short_name_spec(s) == short_name_spec(s.skip(k + 2)),
    decreases k,
{
    if k == 0 {
        assert(s.len() >= 2 && s[0] == ':' && s[1] == ':');
    } else {
        assert(!(s[0] == ':' && s[1] == ':'));
        assert(has_sep(s));
        assert(short_name_spec(s) == short_name_spec(s.skip(1)));
        let t = s.skip(1);
        assert(sep_at(t, k - 1)) by {
            assert(t[k - 1] == s[k]);
            assert(t[k] == s[k + 1]);
        }
        assert(forall|j: int| 0 <= j < k - 1 ==> !((#[trigger] t[j]) == ':' && t[j + 1] == ':'))
            by {
            assert forall|j: int| 0 <= j < k - 1 implies !((#[trigger] t[j]) == ':' && t[j + 1]
                == ':') by {
                assert(t[j] == s[j + 1]);
                assert(t[j + 1] == s[j + 2]);
            }
        }
        lemma_short_skips_first_sep(t, k - 1);
        assert(t.skip(k + 1) =~= s.skip(k + 2));
    }
}

/// Find the first module separator of `s` at or after `from`.
fn find_sep(s: &str, from: usize, n: usize) -> (r: Option<usize>)
    requires
        n == s@.len(),
        from <= n,
    ensures
        match r {
            Some(j) => {
                &&& from <= j
                &&& sep_at(s@, j as int)
                &&& forall|i: int|
                    from <= i < j ==> !((#[trigger] s@[i]) == ':' && s@[i + 1] == ':')
            },
            None => !has_sep(s@.skip(from as int)),
        },
{
    let mut j = from;
    while n - j > 1
        invariant
            n == s@.len(),
            from <= j <= n,
            forall|i: int| from <= i < j ==> !((#[trigger] s@[i]) == ':' && s@[i + 1] == ':'),
        decreases n - j,
    {
        if s.get_char(j) == ':' && s.get_char(j + 1) == ':' {
            return Some(j);
        }
        j += 1;
    }
    proof {
        let t = s@.skip(from as int);
        if has_sep(t) {
            let i = choose|i: int| sep_at(t, i);
            assert(t[i] == s@[from + i]);
            assert(t[i + 1] == s@[from + i + 1]);
            assert(s@[from + i] == ':' && s@[from + i + 1] == ':');
            assert(from + i < j);
            assert(false);
        }
    }
    None
}

/// The unqualified form of a type name: everything after the last
/// module separator, or the name itself when it has none.
pub fn short_name(s: &str) -> (r: String)
    ensures
        r@ == short_name_spec(s@),
{
    let n = s.unicode_len();
    let mut start: usize = 0;
    proof {
        assert(s@.skip(0) =~= s@);
    }
    loop
        invariant
            n == s@.len(),
            start <= n,
            short_name_spec(s@) == short_name_spec(s@.skip(start as int)),
        decreases n - start,
    {
        match find_sep(s, start, n) {
            Some(j) => {
                proof {
                    let t = s@.skip(start as int);
                    assert(sep_at(t, j - start)) by {
                        assert(t[j - start] == s@[j as int]);
                        assert(t[j - start + 1] == s@[j + 1]);
                    }
                    assert forall|i: int| 0 <= i < j - start implies !((#[trigger] t[i]) == ':'
                        && t[i + 1] == ':') by {
                        assert(t[i] == s@[start + i]);
                        assert(t[i + 1] == s@[start + i + 1]);
                    }
                    lemma_short_skips_first_sep(t, j - start);
                    assert(t.skip(j - start + 2) =~= s@.skip(j + 2));
                }
                start = j + 2;
            },
            None => {
                proof {
                    lemma_short_no_sep(s@.skip(start as int));
                }
                let r = s.substring_char(start, n).to_owned();
                proof {
                    assert(s@.subrange(start as int, n as int) =~= s@.skip(start as int));
                }
                return r;
            },
        }
    }
}

/// Compare two strings by content.
pub fn str_eq(a: &str, b: &str) -> (r: bool)
    ensures
        r == (a@ == b@),
{
    let ab = a.as_bytes_vec();
    let bb = b.as_bytes_vec();
    let r = byte_vec_eq(&ab, &bb);
    proof {
        if ab@ == bb@ {
            encode_utf8_decode_utf8(a@);
            encode_utf8_decode_utf8(b@);
        }
    }
    r
}

/// The lenient type-name comparator: accepts an exact match, or a
/// match after stripping module qualification from both sides.
pub fn compare_type_names(a: &str, b: &str) -> (r: bool)
    ensures
        r == names_compatible(a@, b@),
{
    if str_eq(a, b) {
        return true;
    }
    let sa = short_name(a);
    let sb = short_name(b);
    str_eq(sa.as_str(), sb.as_str())
}

} // verus!
