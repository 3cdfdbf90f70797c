//! Small verified helpers on `Vec<char>`, the representation this library
//! uses for all text (pipeline names, commands, log lines).

use vstd::prelude::*;

verus! {

/// For text, the deep view and the view coincide; letting the verifier
/// rewrite one to the other keeps contracts over nested text readable.
pub broadcast proof fn lemma_text_deep_view(v: Vec<char>)
    ensures
        #[trigger] v.deep_view() == v@,
{
    assert(v.deep_view() =~= v@);
}

/// Append every character of `s` to `out`, in order.
pub fn append_str(out: &mut Vec<char>, s: &str)
    ensures
        final(out)@ == old(out)@ + s@,
{
    let n: usize = s.unicode_len();
    let mut j: usize = 0;
    while j < n
        invariant
            n == s@.len(),
            j <= n,
            out@ == old(out)@ + s@.subrange(0, j as int),
        decreases n - j,
    {
        let c = s.get_char(j);
        out.push(c);
        j = j + 1;
        proof {
            assert(out@ =~= old(out)@ + s@.subrange(0, j as int));
        }
    }
    proof {
        assert(out@ =~= old(out)@ + s@);
    }
}

/// Append every character of `s` to `out`, in order.
pub fn append_chars(out: &mut Vec<char>, s: &Vec<char>)
    ensures
        final(out)@ == old(out)@ + s@,
{
    let n: usize = s.len();
    let mut j: usize = 0;
    while j < n
        invariant
            n == s@.len(),
            j <= n,
            out@ == old(out)@ + s@.subrange(0, j as int),
        decreases n - j,
    {
        out.push(s[j]);
        j = j + 1;
        proof {
            assert(out@ =~= old(out)@ + s@.subrange(0, j as int));
        }
    }
    proof {
        assert(out@ =~= old(out)@ + s@);
    }
}

/// Whole-text equality between a `Vec<char>` and a `&str`.
pub fn chars_eq_str(v: &Vec<char>, s: &str) -> (r: bool)
    ensures
        r == (v@ == s@),
{
    let n: usize = s.unicode_len();
    if v.len() != n {
        proof {
            assert(v@ != s@) by {
                assert(v@.len() != s@.len());
            }
        }
        return false;
    }
    let mut j: usize = 0;
    while j < n
        invariant
            n == s@.len(),
            v@.len() == n,
            j <= n,
            forall|k: int| 0 <= k < j ==> v@[k] == s@[k],
        decreases n - j,
    {
        if v[j] != s.get_char(j) {
            return false;
        }
        j = j + 1;
    }
    proof {
        assert(v@ =~= s@);
    }
    true
}

/// Whole-text equality between two `Vec<char>` values.
pub fn chars_eq(a: &Vec<char>, b: &Vec<char>) -> (r: bool)
    ensures
        r == (a@ == b@),
{
    if a.len() != b.len() {
        proof {
            assert(a@ != b@) by {
                assert(a@.len() != b@.len());
            }
        }
        return false;
    }
    let n: usize = a.len();
    let mut j: usize = 0;
    while j < n
        invariant
            n == a@.len(),
            b@.len() == n,
            j <= n,
            forall|k: int| 0 <= k < j ==> a@[k] == b@[k],
        decreases n - j,
    {
        if a[j] != b[j] {
            return false;
        }
        j = j + 1;
    }
    proof {
        assert(a@ =~= b@);
    }
    true
}

/// Copy a `Vec<char>` (the library does not rely on derived `Clone`
/// in verified code, so copies are made explicitly).
pub fn copy_chars(v: &Vec<char>) -> (r: Vec<char>)
    ensures
        r@ == v@,
{
    let mut out: Vec<char> = Vec::new();
    append_chars(&mut out, v);
    out
}

} // verus!
