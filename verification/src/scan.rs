use vstd::prelude::*;

verus! {

// The resolver locates definitions by scanning arbitrary SPICE text for
// three directive shapes: `.SUBCKT <name> ...`, `.model <name> ...` and
// `.include <path>`.  The directive keyword is matched case-insensitively;
// a captured name is a run of letters and digits; an `.include` argument is
// the rest of the directive's line.  This module holds the character-level
// model of those shapes and the executable scanner proved against it.

/// A letter or digit: the characters a captured definition name is made of.
pub open spec fn is_name_char(c: char) -> bool {
    (48 <= c as u32 && c as u32 <= 57) || (65 <= c as u32 && c as u32 <= 90) || (97 <= c as u32
        && c as u32 <= 122)
}

/// Whether content character `c` matches keyword character `k`.  Keyword
/// characters are lower-case letters or `'.'`; a letter matches either case.
pub open spec fn kw_char_matches(c: char, k: char) -> bool {
    c == k || (97 <= k as u32 && k as u32 <= 122 && c as u32 + 32 == k as u32)
}

/// The keyword of a sub-circuit definition directive.
pub open spec fn subckt_kw() -> Seq<char> {
    seq!['.', 's', 'u', 'b', 'c', 'k', 't']
}

/// The keyword of a model definition directive.
pub open spec fn model_kw() -> Seq<char> {
    seq!['.', 'm', 'o', 'd', 'e', 'l']
}

/// The keyword of an inclusion directive.
pub open spec fn inc_kw() -> Seq<char> {
    seq!['.', 'i', 'n', 'c', 'l', 'u', 'd', 'e']
}

/// The keyword `kw`, matched case-insensitively, stands at position `i` of
/// `s` and is followed by one space.
pub open spec fn directive_at(s: Seq<char>, kw: Seq<char>, i: int) -> bool {
    &&& 0 <= i
    &&& i + kw.len() + 1 <= s.len()
    &&& (forall|j: int| 0 <= j < kw.len() ==> kw_char_matches(s[i + j], kw[j]))
    &&& s[i + kw.len()] == ' '
}

/// The end of the run of name characters that starts at position `j` of `s`.
pub open spec fn name_end(s: Seq<char>, j: int) -> int
    decreases s.len() - j,
{
    if j < 0 || j >= s.len() {
        j
    } else if is_name_char(s[j]) {
        name_end(s, j + 1)
    } else {
        j
    }
}

/// A definition directive with keyword `kw` stands at position `i` of `s`
/// and captures exactly `name`: keyword, one space, the maximal run of name
/// characters, then a space before the rest of the line.
pub open spec fn defines_at(s: Seq<char>, kw: Seq<char>, name: Seq<char>, i: int) -> bool {
    let p = i + kw.len() + 1;
    let e = name_end(s, p);
    &&& directive_at(s, kw, i)
    &&& name == s.subrange(p, e)
    &&& e < s.len()
    &&& s[e] == ' '
}

/// `s` contains, anywhere, a definition directive with keyword `kw` whose
/// captured name is `name`.
pub open spec fn defines(s: Seq<char>, kw: Seq<char>, name: Seq<char>) -> bool {
    exists|i: int| defines_at(s, kw, name, i)
}

/// The end of the line that position `j` of `s` lies on: the index of the
/// next newline, or the end of `s`.
pub open spec fn line_end(s: Seq<char>, j: int) -> int
    decreases s.len() - j,
{
    if j < 0 || j >= s.len() {
        s.len() as int
    } else if s[j] == '\n' {
        j
    } else {
        line_end(s, j + 1)
    }
}

/// The argument of the first inclusion directive at or after position `i`
/// of `s`: the rest of that directive's line, after the keyword and space.
pub open spec fn first_inc_arg_from(s: Seq<char>, i: int) -> Option<Seq<char>>
    decreases s.len() - i,
{
    if i + inc_kw().len() + 1 > s.len() {
        None
    } else if directive_at(s, inc_kw(), i) {
        Some(s.subrange(i + inc_kw().len() + 1, line_end(s, i + inc_kw().len() + 1)))
    } else {
        first_inc_arg_from(s, i + 1)
    }
}

/// The argument of the first inclusion directive in `s`, if there is one.
pub open spec fn first_inc_arg(s: Seq<char>) -> Option<Seq<char>> {
    first_inc_arg_from(s, 0)
}

/// Letter-or-digit test, the executable side of `is_name_char`.
fn name_char(c: char) -> (r: bool)
    ensures
        r == is_name_char(c),
{
    let u = c as u32;
    (48 <= u && u <= 57) || (65 <= u && u <= 90) || (97 <= u && u <= 122)
}

/// Case-insensitive keyword character test, the executable side of
/// `kw_char_matches`.
fn kw_char(c: char, k: char) -> (r: bool)
    ensures
        r == kw_char_matches(c, k),
{
    let cu = c as u32;
    let ku = k as u32;
    c == k || (97 <= ku && ku <= 122 && cu == ku - 32)
}

/// The sub-circuit keyword as characters.
pub fn subckt_kw_vec() -> (r: Vec<char>)
    ensures
        r@ == subckt_kw(),
{
    let mut v: Vec<char> = Vec::new();
    v.push('.');
    v.push('s');
    v.push('u');
    v.push('b');
    v.push('c');
    v.push('k');
    v.push('t');
    proof {
        assert(v@ =~= subckt_kw());
    }
    v
}

/// The model keyword as characters.
pub fn model_kw_vec() -> (r: Vec<char>)
    ensures
        r@ == model_kw(),
{
    let mut v: Vec<char> = Vec::new();
    v.push('.');
    v.push('m');
    v.push('o');
    v.push('d');
    v.push('e');
    v.push('l');
    proof {
        assert(v@ =~= model_kw());
    }
    v
}

/// The inclusion keyword as characters.
pub fn inc_kw_vec() -> (r: Vec<char>)
    ensures
        r@ == inc_kw(),
{
    let mut v: Vec<char> = Vec::new();
    v.push('.');
    v.push('i');
    v.push('n');
    v.push('c');
    v.push('l');
    v.push('u');
    v.push('d');
    v.push('e');
    proof {
        assert(v@ =~= inc_kw());
    }
    v
}

/// Whether the keyword `kw` followed by a space stands at position `i` of `s`.
fn directive_at_exec(s: &str, kw: &Vec<char>, i: usize, n: usize) -> (r: bool)
    requires
        n == s@.len(),
        i + kw@.len() + 1 <= n,
    ensures
        r == directive_at(s@, kw@, i as int),
{
    let klen = kw.len();
    let mut j: usize = 0;
    while j < klen
        invariant
            n == s@.len(),
            klen == kw@.len(),
            i + klen + 1 <= n,
            0 <= j <= klen,
            forall|m: int| 0 <= m < j ==> kw_char_matches(s@[i + m], kw@[m]),
        decreases klen - j,
    {
        let c = s.get_char(i + j);
        if !kw_char(c, kw[j]) {
            assert(!kw_char_matches(s@[i + j], kw@[j as int]));
            return false;
        }
        j += 1;
    }
    let c = s.get_char(i + klen);
    c == ' '
}

/// The end of the run of name characters starting at `p`, the executable
/// side of `name_end`.
fn name_end_exec(s: &str, p: usize, n: usize) -> (e: usize)
    requires
        n == s@.len(),
        p <= n,
    ensures
        e == name_end(s@, p as int),
        p <= e <= n,
{
    let mut e: usize = p;
    loop
        invariant
            n == s@.len(),
            p <= e <= n,
            name_end(s@, p as int) == name_end(s@, e as int),
        ensures
            p <= e <= n,
            name_end(s@, p as int) == e as int,
        decreases n - e,
    {
        if e == n {
            assert(name_end(s@, e as int) == e as int);
            break ;
        }
        let c = s.get_char(e);
        if !name_char(c) {
            assert(name_end(s@, e as int) == e as int);
            break ;
        }
        assert(name_end(s@, e as int) == name_end(s@, e + 1 as int));
        e += 1;
    }
    e
}

/// The end of the line that position `p` lies on, the executable side of
/// `line_end`.
fn line_end_exec(s: &str, p: usize, n: usize) -> (e: usize)
    requires
        n == s@.len(),
        p <= n,
    ensures
        e == line_end(s@, p as int),
        p <= e <= n,
{
    let mut e: usize = p;
    loop
        invariant
            n == s@.len(),
            p <= e <= n,
            line_end(s@, p as int) == line_end(s@, e as int),
        ensures
            p <= e <= n,
            line_end(s@, p as int) == e as int,
        decreases n - e,
    {
        if e == n {
            assert(line_end(s@, e as int) == e as int);
            break ;
        }
        let c = s.get_char(e);
        if c == '\n' {
            assert(line_end(s@, e as int) == e as int);
            break ;
        }
        assert(line_end(s@, e as int) == line_end(s@, e + 1 as int));
        e += 1;
    }
    e
}

/// Whether a definition directive with keyword `kw` capturing exactly `key`
/// stands at position `i` of `s`.
fn defines_at_exec(s: &str, kw: &Vec<char>, key: &str, i: usize, n: usize) -> (r: bool)
    requires
        n == s@.len(),
        i + kw@.len() + 1 <= n,
    ensures
        r == defines_at(s@, kw@, key@, i as int),
{
    if !directive_at_exec(s, kw, i, n) {
        return false;
    }
    let p = i + kw.len() + 1;
    let e = name_end_exec(s, p, n);
    if e == n {
        return false;
    }
    let c = s.get_char(e);
    if c != ' ' {
        return false;
    }
    let klen = key.unicode_len();
    if e - p != klen {
        proof {
            let ps = i as int + kw@.len() + 1;
            assert(name_end(s@, ps) == e as int);
            assert(s@.subrange(ps, e as int).len() != key@.len());
            assert(!defines_at(s@, kw@, key@, i as int));
        }
        return false;
    }
    let mut j: usize = 0;
    while j < klen
        invariant
            n == s@.len(),
            klen == key@.len(),
            p == i + kw@.len() + 1,
            e == name_end(s@, p as int),
            p + klen == e <= n,
            0 <= j <= klen,
            forall|m: int| 0 <= m < j ==> s@[p + m] == key@[m],
        decreases klen - j,
    {
        let a = s.get_char(p + j);
        let b = key.get_char(j);
        if a != b {
            proof {
                let ps = p as int;
                assert(s@.subrange(ps, e as int)[j as int] == s@[ps + j]);
                assert(s@.subrange(ps, e as int)[j as int] != key@[j as int]);
                assert(!defines_at(s@, kw@, key@, i as int));
            }
            return false;
        }
        j += 1;
    }
    proof {
        assert(s@.subrange(p as int, e as int) =~= key@);
    }
    true
}

/// Whether `content` contains, anywhere, a definition directive with keyword
/// `kw` whose captured name is exactly `key`.
pub fn content_defines(content: &str, kw: &Vec<char>, key: &str) -> (r: bool)
    ensures
        r == defines(content@, kw@, key@),
{
    let n = content.unicode_len();
    let klen = kw.len();
    if klen >= n {
        assert(forall|i: int| !defines_at(content@, kw@, key@, i));
        return false;
    }
    let mut i: usize = 0;
    while i < n - klen
        invariant
            n == content@.len(),
            klen == kw@.len(),
            klen < n,
            0 <= i <= n - klen,
            forall|j: int| 0 <= j < i ==> !defines_at(content@, kw@, key@, j),
        decreases n - klen - i,
    {
        if defines_at_exec(content, kw, key, i, n) {
            assert(defines(content@, kw@, key@));
            return true;
        }
        i += 1;
    }
    assert forall|j: int| !defines_at(content@, kw@, key@, j) by {
        if 0 <= j < i {
        } else {
            assert(!directive_at(content@, kw@, j));
        }
    }
    false
}

/// The argument of the first inclusion directive in `content`, if any: the
/// text between the directive's keyword-and-space and the end of its line.
pub fn first_inc_arg_str(content: &str) -> (r: Option<String>)
    ensures
        match first_inc_arg(content@) {
            Some(arg) => r matches Some(a) && a@ == arg,
            None => r is None,
        },
{
    let n = content.unicode_len();
    let kw = inc_kw_vec();
    let klen = kw.len();
    if klen >= n {
        return None;
    }
    let mut i: usize = 0;
    while i < n - klen
        invariant
            n == content@.len(),
            klen == kw@.len(),
            kw@ == inc_kw(),
            klen < n,
            0 <= i <= n - klen,
            first_inc_arg(content@) == first_inc_arg_from(content@, i as int),
        decreases n - klen - i,
    {
        if directive_at_exec(content, &kw, i, n) {
            let p = i + klen + 1;
            let e = line_end_exec(content, p, n);
            let sub = content.substring_char(p, e);
            let a = sub.to_owned();
            proof {
                assert(first_inc_arg_from(content@, i as int) == Some(
                    content@.subrange(p as int, e as int),
                ));
            }
            return Some(a);
        }
        assert(first_inc_arg_from(content@, i as int) == first_inc_arg_from(
            content@,
            i + 1 as int,
        ));
        i += 1;
    }
    assert(first_inc_arg_from(content@, i as int) is None);
    None
}

} // verus!
