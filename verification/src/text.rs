use vstd::prelude::*;

verus! {

// Small verified utilities on strings that the rest of the library shares.

/// Character-wise string equality.
pub fn str_eq(a: &str, b: &str) -> (r: bool)
    ensures
        r == (a@ == b@),
{
    let n = a.unicode_len();
    let m = b.unicode_len();
    if n != m {
        return false;
    }
    let mut i: usize = 0;
    while i < n
        invariant
            n == a@.len(),
            n == b@.len(),
            0 <= i <= n,
            forall|j: int| 0 <= j < i ==> a@[j] == b@[j],
        decreases n - i,
    {
        let ca = a.get_char(i);
        let cb = b.get_char(i);
        if ca != cb {
            assert(a@[i as int] != b@[i as int]);
            return false;
        }
        i += 1;
    }
    proof {
        assert(a@ =~= b@);
    }
    true
}

/// `s` contains a path separator.
pub open spec fn has_sep(s: Seq<char>) -> bool {
    exists|j: int| 0 <= j < s.len() && s[j] == '/'
}

/// Executable side of `has_sep`.
pub fn contains_sep(s: &str) -> (r: bool)
    ensures
        r == has_sep(s@),
{
    let n = s.unicode_len();
    let mut i: usize = 0;
    while i < n
        invariant
            n == s@.len(),
            0 <= i <= n,
            forall|j: int| 0 <= j < i ==> s@[j] != '/',
        decreases n - i,
    {
        let c = s.get_char(i);
        if c == '/' {
            assert(has_sep(s@));
            return true;
        }
        i += 1;
    }
    false
}

/// A single space, the field separator of every netlist line.
pub open spec fn sp() -> Seq<char> {
    seq![' ']
}

/// Appends one space to `s`.
pub fn push_sp(s: &mut String)
    ensures
        final(s)@ == old(s)@ + sp(),
{
    s.append(" ");
    proof {
        reveal_strlit(" ");
        assert(" "@ =~= sp());
    }
}

} // verus!
