use vstd::prelude::*;

verus! {

/// The characters that `char::is_whitespace` accepts: those with the Unicode
/// `White_Space` property.
pub open spec fn is_space(c: char) -> bool {
    let x = c as u32;
    (0x9 <= x && x <= 0xd) || x == 0x20 || x == 0x85 || x == 0xa0 || x == 0x1680 || (0x2000
        <= x && x <= 0x200a) || x == 0x2028 || x == 0x2029 || x == 0x202f || x == 0x205f || x
        == 0x3000
}

pub open spec fn trim_start(s: Seq<char>) -> Seq<char>
    decreases s.len(),
{
    if s.len() > 0 && is_space(s[0]) {
        trim_start(s.drop_first())
    } else {
        s
    }
}

pub open spec fn trim_end(s: Seq<char>) -> Seq<char>
    decreases s.len(),
{
    if s.len() > 0 && is_space(s.last()) {
        trim_end(s.drop_last())
    } else {
        s
    }
}

/// `s` without its leading and trailing whitespace.
pub open spec fn trim(s: Seq<char>) -> Seq<char> {
    trim_end(trim_start(s))
}

/// The first position at or after `p` where `w` occurs in `t`.
pub open spec fn find_from(t: Seq<char>, w: Seq<char>, p: int) -> Option<int>
    decreases t.len() + 1 - p,
{
    if p < 0 || p + w.len() > t.len() {
        None
    } else if t.subrange(p, p + w.len()) == w {
        Some(p)
    } else {
        find_from(t, w, p + 1)
    }
}

/// What `str::to_lowercase` makes of a sequence of characters.
pub uninterp spec fn lower_of(s: Seq<char>) -> Seq<char>;

/// Relies on `str::to_lowercase`: the result depends on the characters of
/// `s` alone, and the empty string stays empty.
#[verifier::external_body]
pub(crate) fn lowercase(s: &str) -> (r: String)
    ensures
        r@ == lower_of(s@),
        s@.len() == 0 ==> r@.len() == 0,
{
    s.to_lowercase()
}

/// Relies on `str::chars`, collected into a `Vec`: the characters of `s`, in
/// order.
#[verifier::external_body]
pub(crate) fn chars_of(s: &str) -> (r: Vec<char>)
    ensures
        r@ == s@,
{
    s.chars().collect()
}

/// Relies on `String`'s `FromIterator<&char>`: the string of the characters
/// of `v`, in order.
#[verifier::external_body]
pub(crate) fn string_of(v: &Vec<char>) -> (r: String)
    ensures
        r@ == v@,
{
    v.iter().collect()
}

pub fn is_space_char(c: char) -> (r: bool)
    ensures
        r == is_space(c),
{
    let x = c as u32;
    (0x9 <= x && x <= 0xd) || x == 0x20 || x == 0x85 || x == 0xa0 || x == 0x1680 || (0x2000 <= x
        && x <= 0x200a) || x == 0x2028 || x == 0x2029 || x == 0x202f || x == 0x205f || x == 0x3000
}

/// A copy of `s[from..to]`.
pub fn copy_range(s: &Vec<char>, from: usize, to: usize) -> (r: Vec<char>)
    requires
        from <= to <= s@.len(),
    ensures
        r@ == s@.subrange(from as int, to as int),
{
    let mut r: Vec<char> = Vec::new();
    let mut i: usize = from;
    while i < to
        invariant
            from <= i <= to <= s@.len(),
            r@ == s@.subrange(from as int, i as int),
        decreases to - i,
    {
        r.push(s[i]);
        assert(r@ =~= s@.subrange(from as int, i + 1));
        i = i + 1;
    }
    r
}

/// `s` without its leading and trailing whitespace.
pub fn trim_chars(s: &Vec<char>) -> (r: Vec<char>)
    ensures
        r@ == trim(s@),
{
    let n: usize = s.len();
    let mut i: usize = 0;
    assert(s@.subrange(0, n as int) =~= s@);
    while i < n && is_space_char(s[i])
        invariant
            n == s@.len(),
            i <= n,
            trim_start(s@) == trim_start(s@.subrange(i as int, n as int)),
        decreases n - i,
    {
        assert(s@.subrange(i as int, n as int).drop_first() =~= s@.subrange(i + 1, n as int));
        i = i + 1;
    }
    assert(trim_start(s@.subrange(i as int, n as int)) == s@.subrange(i as int, n as int));
    let mut j: usize = n;
    while j > i && is_space_char(s[j - 1])
        invariant
            n == s@.len(),
            i <= j <= n,
            trim(s@) == trim_end(s@.subrange(i as int, j as int)),
        decreases j,
    {
        assert(s@.subrange(i as int, j as int).drop_last() =~= s@.subrange(i as int, j - 1));
        j = j - 1;
    }
    assert(trim_end(s@.subrange(i as int, j as int)) == s@.subrange(i as int, j as int));
    copy_range(s, i, j)
}

/// Whether `w` occurs in `t` at position `p`.
pub fn occurs_at(t: &Vec<char>, w: &Vec<char>, p: usize) -> (r: bool)
    requires
        p + w@.len() <= t@.len(),
    ensures
        r == (t@.subrange(p as int, p + w@.len()) == w@),
{
    let m: usize = w.len();
    let tn: usize = t.len();
    let mut k: usize = 0;
    while k < m
        invariant
            m == w@.len(),
            tn == t@.len(),
            p + m <= t@.len(),
            k <= m,
            t@.subrange(p as int, p + k) == w@.subrange(0, k as int),
        decreases m - k,
    {
        if t[p + k] != w[k] {
            assert(t@.subrange(p as int, p + m)[k as int] != w@[k as int]);
            return false;
        }
        assert(t@.subrange(p as int, p + k + 1) =~= w@.subrange(0, k + 1));
        k = k + 1;
    }
    assert(w@.subrange(0, m as int) =~= w@);
    true
}

/// The first position where `w` occurs in `t`.
pub fn find_chars(t: &Vec<char>, w: &Vec<char>) -> (r: Option<usize>)
    ensures
        match r {
            Some(p) => find_from(t@, w@, 0) == Some(p as int),
            None => find_from(t@, w@, 0) is None,
        },
{
    let n: usize = t.len();
    let m: usize = w.len();
    if m > n {
        return None;
    }
    let mut p: usize = 0;
    while m <= n - p
        invariant
            n == t@.len(),
            m == w@.len(),
            p <= n,
            find_from(t@, w@, 0) == find_from(t@, w@, p as int),
        decreases n - p,
    {
        if m == 0 {
            assert(t@.subrange(p as int, p as int) =~= w@);
        }
        if occurs_at(t, w, p) {
            return Some(p);
        }
        p = p + 1;
    }
    None
}

} // verus!
