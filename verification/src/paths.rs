//! Virtual paths inside the FAT image.
//!
//! A path is relative, slash-separated and non-empty. Components are kept
//! to ASCII letters, digits, `.`, `_` and `-`, with no component empty or
//! ending in a dot (which also rules out `.` and `..`). A FAT driver
//! resolves names case-insensitively and also matches generated 8.3 short
//! names; inside this alphabet that resolution coincides with comparing
//! paths folded to upper case ([`fold_path`]), so creating and looking up
//! entries behaves like an exact map on folded paths.

use vstd::prelude::*;

verus! {

/// A character allowed inside a path component: `a`-`z` (97..122),
/// `A`-`Z` (65..90), `0`-`9` (48..57), `.` (46), `_` (95) or `-` (45).
pub open spec fn path_char(c: char) -> bool {
    ||| 97 <= c as int <= 122
    ||| 65 <= c as int <= 90
    ||| 48 <= c as int <= 57
    ||| c as int == 46
    ||| c as int == 95
    ||| c as int == 45
}

/// A well-formed virtual path: non-empty, made of `path_char`s and
/// slashes, no leading, trailing or doubled slash, and no dot at the end
/// of a component (which also rules out `.` and `..`).
pub open spec fn valid_path(p: Seq<char>) -> bool {
    &&& p.len() > 0
    &&& forall|i: int| 0 <= i < p.len() ==> path_char(#[trigger] p[i]) || p[i] == '/'
    &&& p[0] != '/'
    &&& p[p.len() - 1] != '/'
    &&& forall|i: int| 0 <= i < p.len() - 1 ==> !(#[trigger] p[i] == '/' && p[i + 1] == '/')
    &&& forall|i: int|
        0 <= i < p.len() && #[trigger] p[i] == '.' ==> i < p.len() - 1 && p[i + 1] != '/'
}

/// The case folding FAT name comparison applies to this alphabet:
/// lower-case ASCII letters go to upper case, all else is unchanged.
pub open spec fn fold_char(c: char) -> char {
    if 97 <= c as int <= 122 {
        (((c as int) - 32) as u8) as char
    } else {
        c
    }
}

/// A path folded character by character.
pub open spec fn fold_path(p: Seq<char>) -> Seq<char> {
    Seq::new(p.len(), |i: int| fold_char(p[i]))
}

/// Folding commutes with taking a prefix.
pub proof fn lemma_fold_subrange(p: Seq<char>, i: int)
    requires
        0 <= i <= p.len(),
    ensures
        fold_path(p.subrange(0, i)) =~= fold_path(p).subrange(0, i),
{
}

/// The ancestor directories of `p` whose closing slash lies before
/// position `n`: every prefix `p[..j]` with `p[j] == '/'` and `j < n`.
pub open spec fn ancestors_upto(p: Seq<char>, n: int) -> Set<Seq<char>> {
    Set::new(
        |a: Seq<char>| exists|j: int| 0 < j < n && #[trigger] p[j] == '/' && a == p.subrange(0, j),
    )
}

/// All ancestor directories of `p`, shallowest to deepest, the root and
/// the leaf excluded.
pub open spec fn path_ancestors(p: Seq<char>) -> Set<Seq<char>> {
    ancestors_upto(p, p.len() as int)
}

/// Every well-formed path is ASCII.
pub proof fn lemma_valid_path_ascii(p: Seq<char>)
    requires
        valid_path(p),
    ensures
        vstd::utf8::is_ascii_chars(p),
{
    assert forall|i| 0 <= i < p.len() implies '\0' <= #[trigger] p[i] <= '\u{7f}' by {
        assert(path_char(p[i]) || p[i] == '/');
    }
}

/// Before the second character is examined there are no ancestors.
pub proof fn lemma_ancestors_upto_empty(p: Seq<char>, n: int)
    requires
        n <= 1,
    ensures
        ancestors_upto(p, n) =~= Set::<Seq<char>>::empty(),
{
}

/// Passing a non-slash character adds no ancestor.
pub proof fn lemma_ancestors_upto_same(p: Seq<char>, i: int)
    requires
        0 <= i < p.len(),
        p[i] != '/',
    ensures
        ancestors_upto(p, i + 1) =~= ancestors_upto(p, i),
{
    assert forall|a: Seq<char>| ancestors_upto(p, i + 1).contains(a) implies ancestors_upto(
        p,
        i,
    ).contains(a) by {
        let j = choose|j: int| 0 < j < i + 1 && #[trigger] p[j] == '/' && a == p.subrange(0, j);
        assert(j < i);
    }
}

/// Passing a slash at position `i` adds exactly the prefix `p[..i]`.
pub proof fn lemma_ancestors_upto_slash(p: Seq<char>, i: int)
    requires
        0 < i < p.len(),
        p[i] == '/',
    ensures
        ancestors_upto(p, i + 1) =~= ancestors_upto(p, i).insert(p.subrange(0, i)),
{
    assert forall|a: Seq<char>| ancestors_upto(p, i + 1).contains(a) implies ancestors_upto(
        p,
        i,
    ).insert(p.subrange(0, i)).contains(a) by {
        let j = choose|j: int| 0 < j < i + 1 && #[trigger] p[j] == '/' && a == p.subrange(0, j);
        if j < i {
            assert(ancestors_upto(p, i).contains(a));
        }
    }
    assert(ancestors_upto(p, i + 1).contains(p.subrange(0, i)));
}

/// A prefix of a well-formed path that ends just before a slash is
/// itself a well-formed path.
pub proof fn lemma_prefix_valid(p: Seq<char>, i: int)
    requires
        valid_path(p),
        0 < i < p.len(),
        p[i] == '/',
    ensures
        valid_path(p.subrange(0, i)),
{
    let q = p.subrange(0, i);
    assert(q[i - 1] == p[i - 1]);
    assert(!(p[i - 1] == '/' && p[i] == '/'));
    assert(!(p[i - 1] == '.'));
    assert forall|k: int| 0 <= k < q.len() && #[trigger] q[k] == '.' implies k < q.len() - 1 && q[k
        + 1] != '/' by {
        assert(p[k] == '.');
        assert(k + 1 < p.len() && p[k + 1] != '/');
        assert(k + 1 != i);
    }
}

/// Checks that `c` may appear inside a path component.
pub fn is_path_char(c: char) -> (b: bool)
    ensures
        b == path_char(c),
{
    let u = c as u32;
    (97 <= u && u <= 122) || (65 <= u && u <= 90) || (48 <= u && u <= 57) || u == 46 || u == 95
        || u == 45
}

/// Checks whether `s` is a well-formed virtual path.
pub fn check_path(s: &str) -> (b: bool)
    ensures
        b == valid_path(s@),
{
    let n = s.unicode_len();
    if n == 0 {
        return false;
    }
    let mut i: usize = 0;
    while i < n
        invariant
            0 < n == s@.len(),
            0 <= i <= n,
            forall|j: int| 0 <= j < i ==> path_char(#[trigger] s@[j]) || s@[j] == '/',
            0 < i ==> s@[0] != '/',
            forall|j: int| 0 <= j < i && j < n - 1 ==> !(#[trigger] s@[j] == '/' && s@[j + 1] == '/'),
            i == n ==> s@[n - 1] != '/',
            forall|j: int| 0 <= j < i && #[trigger] s@[j] == '.' ==> j < n - 1 && s@[j + 1] != '/',
        decreases n - i,
    {
        let c = s.get_char(i);
        if !is_path_char(c) && c != '/' {
            return false;
        }
        if c == '/' {
            if i == 0 || i == n - 1 {
                return false;
            }
            if s.get_char(i + 1) == '/' {
                return false;
            }
        }
        if c == '.' {
            if i == n - 1 {
                return false;
            }
            if s.get_char(i + 1) == '/' {
                return false;
            }
        }
        i += 1;
    }
    true
}

/// Compares two strings under the case folding of [`fold_path`].
pub fn folded_equal(a: &str, b: &str) -> (r: bool)
    ensures
        r == (fold_path(a@) == fold_path(b@)),
{
    let n = a.unicode_len();
    let m = b.unicode_len();
    if n != m {
        proof {
            assert(fold_path(a@).len() != fold_path(b@).len());
        }
        return false;
    }
    let mut i: usize = 0;
    while i < n
        invariant
            n == a@.len() == b@.len(),
            0 <= i <= n,
            forall|j: int| 0 <= j < i ==> fold_char(#[trigger] a@[j]) == fold_char(b@[j]),
        decreases n - i,
    {
        if fold_ascii(a.get_char(i)) != fold_ascii(b.get_char(i)) {
            proof {
                assert(fold_path(a@)[i as int] != fold_path(b@)[i as int]);
            }
            return false;
        }
        i += 1;
    }
    proof {
        assert(fold_path(a@) =~= fold_path(b@));
    }
    true
}

/// Folds one character as [`fold_char`] does.
fn fold_ascii(c: char) -> (r: char)
    ensures
        r == fold_char(c),
{
    let u = c as u32;
    if 97 <= u && u <= 122 {
        (u - 32) as u8 as char
    } else {
        c
    }
}

} // verus!
