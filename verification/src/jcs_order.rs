//! The canonical form of an object does not depend on the order in which
//! its members were given.

use vstd::prelude::*;
use crate::jcs::spec_bytes_less;
use crate::jcs::spec_insert_pos;
use crate::jcs::spec_jcs;
use crate::jcs::spec_members;
use crate::jcs::spec_sort;
use crate::jcs::spec_text_bytes;
use crate::json::Json;
use crate::json::spec_keys_distinct;

verus! {

/// Whether the keys of the members go up strictly from each member to the
/// next.
pub open spec fn spec_sorted(s: Seq<(Seq<u8>, Seq<u8>)>) -> bool {
    forall|i: int, j: int| 0 <= i < j < s.len() ==> spec_bytes_less(s[i].0, s[j].0)
}

/// Whether no two members have the same key.
pub open spec fn spec_member_keys_distinct(s: Seq<(Seq<u8>, Seq<u8>)>) -> bool {
    forall|i: int, j: int| 0 <= i < j < s.len() ==> s[i].0 != s[j].0
}

/// Whether two lists hold the same items, in whatever order.
pub open spec fn spec_same_items<T>(a: Seq<T>, b: Seq<T>) -> bool {
    forall|e: T| a.contains(e) <==> b.contains(e)
}

/// No string of bytes comes before itself.
pub proof fn lemma_less_irreflexive(a: Seq<u8>)
    ensures
        !spec_bytes_less(a, a),
    decreases a.len(),
{
    if a.len() > 0 {
        lemma_less_irreflexive(a.drop_first());
    }
}

/// The order of bytes is transitive.
pub proof fn lemma_less_transitive(a: Seq<u8>, b: Seq<u8>, c: Seq<u8>)
    requires
        spec_bytes_less(a, b),
        spec_bytes_less(b, c),
    ensures
        spec_bytes_less(a, c),
    decreases a.len(),
{
    if a.len() > 0 && b.len() > 0 && c.len() > 0 {
        if a[0] == b[0] && b[0] == c[0] {
            lemma_less_transitive(a.drop_first(), b.drop_first(), c.drop_first());
        }
    }
}

/// Of two different strings of bytes one comes before the other.
pub proof fn lemma_less_total(a: Seq<u8>, b: Seq<u8>)
    ensures
        spec_bytes_less(a, b) || spec_bytes_less(b, a) || a == b,
    decreases a.len(),
{
    if a.len() > 0 && b.len() > 0 {
        if a[0] == b[0] {
            lemma_less_total(a.drop_first(), b.drop_first());
            if a.drop_first() == b.drop_first() {
                assert(a =~= seq![a[0]] + a.drop_first());
                assert(b =~= seq![b[0]] + b.drop_first());
            }
        }
    } else if a.len() == 0 && b.len() == 0 {
        assert(a =~= b);
    }
}

/// Where a member goes among members in order: within the list or at its
/// end, after every member whose key does not come after its own, and
/// before a member whose key does.
pub proof fn lemma_insert_pos(s: Seq<(Seq<u8>, Seq<u8>)>, key: Seq<u8>)
    ensures
        0 <= spec_insert_pos(s, key) <= s.len(),
        forall|k: int| 0 <= k < spec_insert_pos(s, key) ==> !spec_bytes_less(key, #[trigger] s[k].0),
        spec_insert_pos(s, key) < s.len() ==> spec_bytes_less(key, s[spec_insert_pos(s, key)].0),
    decreases s.len(),
{
    if s.len() > 0 && !spec_bytes_less(key, s[0].0) {
        lemma_insert_pos(s.drop_first(), key);
        assert forall|k: int| 0 <= k < spec_insert_pos(s, key) implies !spec_bytes_less(
            key,
            #[trigger] s[k].0,
        ) by {
            if k > 0 {
                assert(s.drop_first()[k - 1] == s[k]);
            }
        }
        if spec_insert_pos(s, key) < s.len() {
            assert(s.drop_first()[spec_insert_pos(s, key) - 1] == s[spec_insert_pos(s, key)]);
        }
    }
}

/// Members in order stay in order when a member with a new key is put
/// where it goes.
pub proof fn lemma_insert_keeps_sorted(s: Seq<(Seq<u8>, Seq<u8>)>, m: (Seq<u8>, Seq<u8>))
    requires
        spec_sorted(s),
        forall|k: int| 0 <= k < s.len() ==> (#[trigger] s[k]).0 != m.0,
    ensures
        spec_sorted(s.insert(spec_insert_pos(s, m.0), m)),
{
    let pos = spec_insert_pos(s, m.0);
    let t = s.insert(pos, m);
    lemma_insert_pos(s, m.0);
    s.insert_ensures(pos, m);
    assert forall|i: int, j: int| 0 <= i < j < t.len() implies spec_bytes_less(t[i].0, t[j].0) by {
        if i < pos {
            assert(t[i] == s[i]);
            if j == pos {
                lemma_less_total(s[i].0, m.0);
            } else if j < pos {
                assert(t[j] == s[j]);
            } else {
                assert(t[j] == s[j - 1]);
            }
        } else if i == pos {
            assert(t[j] == s[j - 1]);
            if j - 1 > pos {
                lemma_less_transitive(m.0, s[pos].0, s[j - 1].0);
            }
        } else {
            assert(t[i] == s[i - 1]);
            assert(t[j] == s[j - 1]);
        }
    }
}

/// Putting the members in order neither loses nor invents a member.
pub proof fn lemma_sort_same_items(members: Seq<(Seq<u8>, Seq<u8>)>)
    ensures
        spec_sort(members).len() == members.len(),
        spec_same_items(spec_sort(members), members),
    decreases members.len(),
{
    if members.len() > 0 {
        let rest = members.drop_last();
        let last = members.last();
        let s = spec_sort(rest);
        let pos = spec_insert_pos(s, last.0);
        let t = s.insert(pos, last);
        lemma_sort_same_items(rest);
        lemma_insert_pos(s, last.0);
        s.insert_ensures(pos, last);
        assert forall|e: (Seq<u8>, Seq<u8>)| t.contains(e) <==> members.contains(e) by {
            if t.contains(e) {
                let i = choose|i: int| 0 <= i < t.len() && t[i] == e;
                if i == pos {
                    assert(members[members.len() - 1] == e);
                } else {
                    let k = if i < pos {
                        i
                    } else {
                        i - 1
                    };
                    assert(s[k] == e);
                    assert(s.contains(e));
                    assert(rest.contains(e));
                    let r = choose|r: int| 0 <= r < rest.len() && rest[r] == e;
                    assert(members[r] == e);
                }
            }
            if members.contains(e) {
                let r = choose|r: int| 0 <= r < members.len() && members[r] == e;
                if r == members.len() - 1 {
                    assert(t[pos] == e);
                } else {
                    assert(rest[r] == e);
                    assert(rest.contains(e));
                    assert(s.contains(e));
                    let k = choose|k: int| 0 <= k < s.len() && s[k] == e;
                    if k < pos {
                        assert(t[k] == e);
                    } else {
                        assert(t[k + 1] == e);
                    }
                }
            }
        }
    } else {
        assert(spec_sort(members) =~= members);
    }
}

/// Members with distinct keys, put in order, have keys that go up strictly.
pub proof fn lemma_sort_sorted(members: Seq<(Seq<u8>, Seq<u8>)>)
    requires
        spec_member_keys_distinct(members),
    ensures
        spec_sorted(spec_sort(members)),
    decreases members.len(),
{
    if members.len() > 0 {
        let rest = members.drop_last();
        let last = members.last();
        let s = spec_sort(rest);
        assert(spec_member_keys_distinct(rest)) by {
            assert forall|i: int, j: int| 0 <= i < j < rest.len() implies rest[i].0 != rest[j].0 by {
                assert(rest[i] == members[i]);
                assert(rest[j] == members[j]);
            }
        }
        lemma_sort_sorted(rest);
        lemma_sort_same_items(rest);
        assert forall|k: int| 0 <= k < s.len() implies (#[trigger] s[k]).0 != last.0 by {
            assert(s.contains(s[k]));
            assert(rest.contains(s[k]));
            let r = choose|r: int| 0 <= r < rest.len() && rest[r] == s[k];
            assert(members[r] == s[k]);
        }
        lemma_insert_keeps_sorted(s, last);
    }
}

/// Two lists of members whose keys go up strictly and that hold the same
/// members are the same list.
pub proof fn lemma_sorted_unique(x: Seq<(Seq<u8>, Seq<u8>)>, y: Seq<(Seq<u8>, Seq<u8>)>)
    requires
        spec_sorted(x),
        spec_sorted(y),
        spec_same_items(x, y),
    ensures
        x == y,
    decreases x.len(),
{
    if x.len() == 0 {
        if y.len() > 0 {
            assert(y.contains(y[0]));
            assert(x.contains(y[0]));
        }
        assert(x =~= y);
    } else {
        let xl = x.last();
        assert(x.contains(xl));
        assert(y.contains(xl));
        let j = choose|j: int| 0 <= j < y.len() && y[j] == xl;
        let yl = y.last();
        assert(y.contains(yl));
        assert(x.contains(yl));
        let i = choose|i: int| 0 <= i < x.len() && x[i] == yl;
        if j < y.len() - 1 {
            assert(spec_bytes_less(xl.0, yl.0));
            if i < x.len() - 1 {
                assert(spec_bytes_less(yl.0, xl.0));
                lemma_less_transitive(xl.0, yl.0, xl.0);
            }
            lemma_less_irreflexive(xl.0);
        }
        assert(yl == xl);
        let xr = x.drop_last();
        let yr = y.drop_last();
        assert(spec_sorted(xr)) by {
            assert forall|a: int, b: int| 0 <= a < b < xr.len() implies spec_bytes_less(xr[a].0, xr[b].0) by {
                assert(xr[a] == x[a]);
                assert(xr[b] == x[b]);
            }
        }
        assert(spec_sorted(yr)) by {
            assert forall|a: int, b: int| 0 <= a < b < yr.len() implies spec_bytes_less(yr[a].0, yr[b].0) by {
                assert(yr[a] == y[a]);
                assert(yr[b] == y[b]);
            }
        }
        assert forall|e: (Seq<u8>, Seq<u8>)| xr.contains(e) <==> yr.contains(e) by {
            if xr.contains(e) {
                let a = choose|a: int| 0 <= a < xr.len() && xr[a] == e;
                assert(x[a] == e);
                assert(x.contains(e));
                assert(y.contains(e));
                let b = choose|b: int| 0 <= b < y.len() && y[b] == e;
                if b == y.len() - 1 {
                    assert(spec_bytes_less(x[a].0, xl.0));
                    lemma_less_irreflexive(xl.0);
                }
                assert(yr[b] == e);
            }
            if yr.contains(e) {
                let b = choose|b: int| 0 <= b < yr.len() && yr[b] == e;
                assert(y[b] == e);
                assert(y.contains(e));
                assert(x.contains(e));
                let a = choose|a: int| 0 <= a < x.len() && x[a] == e;
                if a == x.len() - 1 {
                    assert(spec_bytes_less(y[b].0, yl.0));
                    lemma_less_irreflexive(yl.0);
                }
                assert(xr[a] == e);
            }
        }
        lemma_sorted_unique(xr, yr);
        assert(x =~= xr.push(xl));
        assert(y =~= yr.push(yl));
    }
}

/// Members with distinct keys that are the same but for their order come
/// out the same once they are put in order.
pub proof fn lemma_sort_order_independent(a: Seq<(Seq<u8>, Seq<u8>)>, b: Seq<(Seq<u8>, Seq<u8>)>)
    requires
        spec_member_keys_distinct(a),
        spec_member_keys_distinct(b),
        spec_same_items(a, b),
    ensures
        spec_sort(a) == spec_sort(b),
{
    lemma_sort_sorted(a);
    lemma_sort_sorted(b);
    lemma_sort_same_items(a);
    lemma_sort_same_items(b);
    assert forall|e: (Seq<u8>, Seq<u8>)| spec_sort(a).contains(e) <==> spec_sort(b).contains(e) by {
        assert(spec_sort(a).contains(e) <==> a.contains(e));
        assert(spec_sort(b).contains(e) <==> b.contains(e));
    }
    lemma_sorted_unique(spec_sort(a), spec_sort(b));
}

/// Different strings have different UTF-8 bytes.
pub proof fn lemma_text_bytes_injective(s: Seq<char>, t: Seq<char>)
    requires
        spec_text_bytes(s) == spec_text_bytes(t),
    ensures
        s == t,
{
    vstd::utf8::encode_utf8_decode_utf8(s);
    vstd::utf8::encode_utf8_decode_utf8(t);
}

/// The members of an object with distinct keys have distinct key bytes.
pub proof fn lemma_members_distinct(entries: Seq<(Seq<char>, Json)>)
    requires
        spec_keys_distinct(entries),
    ensures
        spec_member_keys_distinct(spec_members(entries)),
{
    let members = spec_members(entries);
    assert forall|i: int, j: int| 0 <= i < j < members.len() implies members[i].0 != members[j].0 by {
        if members[i].0 == members[j].0 {
            lemma_text_bytes_injective(entries[i].0, entries[j].0);
        }
    }
}

/// Objects that hold the same members hold the same members as pairs of key
/// bytes and text.
pub proof fn lemma_members_same_items(a: Seq<(Seq<char>, Json)>, b: Seq<(Seq<char>, Json)>)
    requires
        forall|e: (Seq<char>, Json)| a.contains(e) ==> b.contains(e),
    ensures
        forall|m: (Seq<u8>, Seq<u8>)| spec_members(a).contains(m) ==> spec_members(b).contains(m),
{
    let ma = spec_members(a);
    let mb = spec_members(b);
    assert forall|m: (Seq<u8>, Seq<u8>)| ma.contains(m) implies mb.contains(m) by {
        let i = choose|i: int| 0 <= i < ma.len() && ma[i] == m;
        assert(a.contains(a[i]));
        assert(b.contains(a[i]));
        let j = choose|j: int| 0 <= j < b.len() && b[j] == a[i];
        assert(mb[j] == m);
    }
}

/// Two objects without a key twice that hold the same members, in whatever
/// order, have the same canonical form.
pub proof fn lemma_jcs_order_independent(a: Seq<(Seq<char>, Json)>, b: Seq<(Seq<char>, Json)>)
    requires
        spec_keys_distinct(a),
        spec_keys_distinct(b),
        spec_same_items(a, b),
    ensures
        spec_jcs(Json::Object(a)) == spec_jcs(Json::Object(b)),
{
    lemma_members_distinct(a);
    lemma_members_distinct(b);
    lemma_members_same_items(a, b);
    lemma_members_same_items(b, a);
    lemma_sort_order_independent(spec_members(a), spec_members(b));
}

/// The canonical form of an object of two members with different keys is
/// the same whichever of the two comes first.
pub proof fn lemma_jcs_swap(first: (Seq<char>, Json), second: (Seq<char>, Json))
    requires
        first.0 != second.0,
    ensures
        spec_jcs(Json::Object(seq![first, second])) == spec_jcs(Json::Object(seq![second, first])),
{
    let a = seq![first, second];
    let b = seq![second, first];
    assert forall|e: (Seq<char>, Json)| a.contains(e) <==> b.contains(e) by {
        if a.contains(e) {
            let i = choose|i: int| 0 <= i < a.len() && a[i] == e;
            assert(b[1 - i] == e);
        }
        if b.contains(e) {
            let i = choose|i: int| 0 <= i < b.len() && b[i] == e;
            assert(a[1 - i] == e);
        }
    }
    lemma_jcs_order_independent(a, b);
}

} // verus!
