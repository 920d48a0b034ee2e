//! Small verified helpers on strings.

use vstd::prelude::*;

verus! {

/// Tells whether two strings hold the same characters.
pub fn str_eq(a: &str, b: &str) -> (same: bool)
    ensures
        same == (a@ == b@),
{
    let x: String = a.to_owned();
    let y: String = b.to_owned();
    x == y
}

/// An owned copy of a string.
pub fn copy_str(s: &str) -> (out: String)
    ensures
        out@ == s@,
{
    s.to_owned()
}

/// An owned copy of an optional string.
pub fn copy_opt(s: &Option<String>) -> (out: Option<String>)
    ensures
        spec_opt(out) == spec_opt(*s),
{
    match s {
        Some(t) => Some(copy_str(t.as_str())),
        None => None,
    }
}

/// The characters of an optional string.
pub open spec fn spec_opt(s: Option<String>) -> Option<Seq<char>> {
    match s {
        Some(t) => Some(t@),
        None => None,
    }
}

/// The place of the first `c` in `s`; the length of `s` where there is none.
pub open spec fn spec_find(s: Seq<char>, c: char) -> int
    decreases s.len(),
{
    if s.len() == 0 {
        0
    } else if s[0] == c {
        0
    } else {
        1 + spec_find(s.drop_first(), c)
    }
}

/// The place of the first `c` in `s` lies within `s` or at its end, and no
/// `c` stands before it.
pub proof fn lemma_find(s: Seq<char>, c: char)
    ensures
        0 <= spec_find(s, c) <= s.len(),
        spec_find(s, c) < s.len() ==> s[spec_find(s, c)] == c,
        forall|k: int| 0 <= k < spec_find(s, c) ==> s[k] != c,
    decreases s.len(),
{
    if s.len() > 0 && s[0] != c {
        lemma_find(s.drop_first(), c);
        assert forall|k: int| 0 <= k < spec_find(s, c) implies s[k] != c by {
            if k > 0 {
                assert(s.drop_first()[k - 1] == s[k]);
            }
        }
    }
}

/// The place of the first `c` in `s`; the length of `s` where there is none.
pub fn find_char(s: &str, c: char) -> (at: usize)
    ensures
        at == spec_find(s@, c),
        at <= s@.len(),
{
    let n: usize = s.unicode_len();
    let mut i: usize = 0;
    assert(s@.skip(0) =~= s@);
    while i < n
        invariant
            i <= n,
            n == s@.len(),
            spec_find(s@, c) == i + spec_find(s@.skip(i as int), c),
        decreases n - i,
    {
        proof {
            assert(s@.skip(i as int)[0] == s@[i as int]);
            assert(s@.skip(i as int).drop_first() =~= s@.skip(i + 1));
        }
        if s.get_char(i) == c {
            return i;
        }
        i += 1;
    }
    i
}

/// What follows the first `#` of an identifier, if it has one.
pub open spec fn spec_fragment(id: Seq<char>) -> Option<Seq<char>> {
    let at = spec_find(id, '#');
    if at < id.len() {
        Some(id.skip(at + 1))
    } else {
        None
    }
}

/// `name` without the `#` it may begin with.
pub open spec fn spec_strip_hash(name: Seq<char>) -> Seq<char> {
    if name.len() > 0 && name[0] == '#' {
        name.skip(1)
    } else {
        name
    }
}

/// Whether `name` names the identifier `id`: it is the whole identifier, or,
/// with or without a leading `#`, the fragment of the identifier.
pub open spec fn spec_names(id: Seq<char>, name: Seq<char>) -> bool {
    name == id || spec_fragment(id) == Some(spec_strip_hash(name))
}

/// Tells whether `name` names the identifier `id`.
pub fn names(id: &str, name: &str) -> (b: bool)
    ensures
        b == spec_names(id@, name@),
{
    if str_eq(id, name) {
        return true;
    }
    let id_len: usize = id.unicode_len();
    let at: usize = find_char(id, '#');
    if at >= id_len {
        return false;
    }
    let fragment: &str = id.substring_char(at + 1, id_len);
    let name_len: usize = name.unicode_len();
    let bare: &str = if name_len > 0 && name.get_char(0) == '#' {
        name.substring_char(1, name_len)
    } else {
        name
    };
    proof {
        assert(fragment@ =~= id@.skip(at + 1));
        assert(bare@ =~= spec_strip_hash(name@));
    }
    str_eq(fragment, bare)
}

} // verus!
