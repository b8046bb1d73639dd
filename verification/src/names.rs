//! Ordering and membership of names.
//!
//! The conflict diagnostic lists names sorted, so the engine carries its
//! own lexicographic order on character sequences, an executable
//! comparison, and a sorted-insertion sort whose result is pinned down
//! functionally.

use vstd::prelude::*;

verus! {

/// Lexicographic order on character sequences, by code point: the empty
/// sequence comes first, and a proper prefix comes before its extension.
pub open spec fn str_le(a: Seq<char>, b: Seq<char>) -> bool
    decreases a.len(),
{
    if a.len() == 0 {
        true
    } else if b.len() == 0 {
        false
    } else if (a[0] as u32) < (b[0] as u32) {
        true
    } else if (a[0] as u32) == (b[0] as u32) {
        str_le(a.skip(1), b.skip(1))
    } else {
        false
    }
}

/// The order is total: of two sequences, one comes no later than the other.
pub proof fn lemma_str_le_total(a: Seq<char>, b: Seq<char>)
    ensures
        str_le(a, b) || str_le(b, a),
    decreases a.len(),
{
    if a.len() > 0 && b.len() > 0 && (a[0] as u32) == (b[0] as u32) {
        lemma_str_le_total(a.skip(1), b.skip(1));
    }
}

/// The order is transitive.
pub proof fn lemma_str_le_trans(a: Seq<char>, b: Seq<char>, c: Seq<char>)
    requires
        str_le(a, b),
        str_le(b, c),
    ensures
        str_le(a, c),
    decreases a.len(),
{
    if a.len() > 0 && b.len() > 0 && c.len() > 0 && (a[0] as u32) == (b[0] as u32) && (
    b[0] as u32) == (c[0] as u32) {
        lemma_str_le_trans(a.skip(1), b.skip(1), c.skip(1));
    }
}

/// True exactly when the two texts hold the same characters.
pub fn text_eq(a: &String, b: &String) -> (r: bool)
    ensures
        r == (a@ == b@),
{
    *a == *b
}

/// Compares two texts in the lexicographic order.
pub fn text_le(a: &String, b: &String) -> (r: bool)
    ensures
        r == str_le(a@, b@),
{
    let alen = a.as_str().unicode_len();
    let blen = b.as_str().unicode_len();
    let mut i: usize = 0;
    proof {
        assert(a@.skip(0) =~= a@);
        assert(b@.skip(0) =~= b@);
    }
    while i < alen && i < blen
        invariant
            i <= alen,
            i <= blen,
            alen == a@.len(),
            blen == b@.len(),
            str_le(a@, b@) == str_le(a@.skip(i as int), b@.skip(i as int)),
        decreases alen - i,
    {
        let ca = a.as_str().get_char(i);
        let cb = b.as_str().get_char(i);
        proof {
            assert(a@.skip(i as int)[0] == a@[i as int]);
            assert(b@.skip(i as int)[0] == b@[i as int]);
        }
        if (ca as u32) < (cb as u32) {
            return true;
        }
        if (ca as u32) > (cb as u32) {
            return false;
        }
        proof {
            assert(a@.skip(i as int).skip(1) =~= a@.skip(i as int + 1));
            assert(b@.skip(i as int).skip(1) =~= b@.skip(i as int + 1));
        }
        i = i + 1;
    }
    i < blen || (alen == i && blen == i)
}

/// True exactly when one of the names equals the given one.
pub fn contains_text(names: &Vec<String>, x: &String) -> (r: bool)
    ensures
        r == names.deep_view().contains(x@),
{
    let ghost nv = names.deep_view();
    let mut i: usize = 0;
    while i < names.len()
        invariant
            i <= names.len(),
            nv == names.deep_view(),
            forall|k: int| 0 <= k < i ==> nv[k] != x@,
        decreases names.len() - i,
    {
        proof {
            assert(nv[i as int] == names@[i as int].deep_view());
        }
        if text_eq(&names[i], x) {
            proof {
                assert(nv.contains(x@)) by {
                    assert(nv[i as int] == x@);
                }
            }
            return true;
        }
        i = i + 1;
    }
    proof {
        if nv.contains(x@) {
            let k = choose|k: int| 0 <= k < nv.len() && nv[k] == x@;
            assert(false);
        }
    }
    false
}

/// The given name inserted into a sorted sequence, before the first
/// entry it comes no later than.
pub open spec fn insert_le(x: Seq<char>, s: Seq<Seq<char>>) -> Seq<Seq<char>>
    decreases s.len(),
{
    if s.len() == 0 {
        seq![x]
    } else if str_le(x, s[0]) {
        seq![x] + s
    } else {
        seq![s[0]] + insert_le(x, s.skip(1))
    }
}

/// The names sorted by [`str_le`]: each one inserted, in turn, into the
/// sorted arrangement of those before it.
pub open spec fn sort_strs(s: Seq<Seq<char>>) -> Seq<Seq<char>>
    decreases s.len(),
{
    if s.len() == 0 {
        Seq::empty()
    } else {
        insert_le(s.last(), sort_strs(s.drop_last()))
    }
}

/// `s` is arranged according to [`str_le`].
pub open spec fn sorted_le(s: Seq<Seq<char>>) -> bool {
    forall|i: int, j: int| 0 <= i < j < s.len() ==> str_le(#[trigger] s[i], #[trigger] s[j])
}

/// Insertion holds exactly the given name and the old ones.
pub proof fn lemma_insert_le_contains(x: Seq<char>, s: Seq<Seq<char>>)
    ensures
        forall|y: Seq<char>|
            #[trigger] insert_le(x, s).contains(y) <==> (y == x || s.contains(y)),
        insert_le(x, s).len() == s.len() + 1,
    decreases s.len(),
{
    if s.len() == 0 {
        assert forall|y: Seq<char>| #[trigger]
            insert_le(x, s).contains(y) <==> (y == x || s.contains(y)) by {
            if y == x {
                assert(insert_le(x, s)[0] == x);
            }
        }
    } else if str_le(x, s[0]) {
        assert forall|y: Seq<char>| #[trigger]
            insert_le(x, s).contains(y) <==> (y == x || s.contains(y)) by {
            if insert_le(x, s).contains(y) {
                let k = choose|k: int| 0 <= k < insert_le(x, s).len() && insert_le(x, s)[k] == y;
                if k > 0 {
                    assert(s[k - 1] == y);
                }
            }
            if y == x {
                assert(insert_le(x, s)[0] == x);
            }
            if s.contains(y) {
                let k = choose|k: int| 0 <= k < s.len() && s[k] == y;
                assert(insert_le(x, s)[k + 1] == y);
            }
        }
    } else {
        lemma_insert_le_contains(x, s.skip(1));
        let t = seq![s[0]] + insert_le(x, s.skip(1));
        assert(insert_le(x, s) == t);
        assert forall|y: Seq<char>| #[trigger]
            insert_le(x, s).contains(y) <==> (y == x || s.contains(y)) by {
            if t.contains(y) {
                let k = choose|k: int| 0 <= k < t.len() && t[k] == y;
                if k == 0 {
                    assert(s[0] == y);
                } else {
                    assert(insert_le(x, s.skip(1))[k - 1] == y);
                    assert(insert_le(x, s.skip(1)).contains(y));
                    if s.skip(1).contains(y) {
                        let m = choose|m: int| 0 <= m < s.skip(1).len() && s.skip(1)[m] == y;
                        assert(s[m + 1] == y);
                    }
                }
            }
            if y == x {
                assert(insert_le(x, s.skip(1)).contains(x));
                let k = choose|k: int|
                    0 <= k < insert_le(x, s.skip(1)).len() && insert_le(x, s.skip(1))[k] == x;
                assert(t[k + 1] == x);
                assert(t.contains(x));
            }
            if s.contains(y) && y != x {
                let k = choose|k: int| 0 <= k < s.len() && s[k] == y;
                if k == 0 {
                    assert(t[0] == y);
                    assert(t.contains(y));
                } else {
                    assert(s.skip(1)[k - 1] == y);
                    assert(s.skip(1).contains(y));
                    assert(insert_le(x, s.skip(1)).contains(y));
                    let m = choose|m: int|
                        0 <= m < insert_le(x, s.skip(1)).len() && insert_le(x, s.skip(1))[m] == y;
                    assert(t[m + 1] == y);
                    assert(t.contains(y));
                }
            }
        }
    }
}

/// Insertion into a sorted sequence keeps it sorted.
pub proof fn lemma_insert_le_sorted(x: Seq<char>, s: Seq<Seq<char>>)
    requires
        sorted_le(s),
    ensures
        sorted_le(insert_le(x, s)),
    decreases s.len(),
{
    if s.len() == 0 {
    } else if str_le(x, s[0]) {
        let t = seq![x] + s;
        assert forall|i: int, j: int| 0 <= i < j < t.len() implies str_le(t[i], t[j]) by {
            if i == 0 {
                if j > 1 {
                    lemma_str_le_trans(x, s[0], s[j - 1]);
                }
            }
        }
    } else {
        assert(sorted_le(s.skip(1))) by {
            assert forall|i: int, j: int|
                0 <= i < j < s.skip(1).len() implies str_le(
                #[trigger] s.skip(1)[i],
                #[trigger] s.skip(1)[j],
            ) by {
                assert(s.skip(1)[i] == s[i + 1]);
                assert(s.skip(1)[j] == s[j + 1]);
            }
        }
        lemma_insert_le_sorted(x, s.skip(1));
        lemma_insert_le_contains(x, s.skip(1));
        lemma_str_le_total(x, s[0]);
        let u = insert_le(x, s.skip(1));
        let t = seq![s[0]] + u;
        assert(insert_le(x, s) == t);
        assert forall|i: int, j: int| 0 <= i < j < t.len() implies str_le(t[i], t[j]) by {
            if i == 0 {
                let y = t[j];
                assert(u[j - 1] == y);
                assert(u.contains(y));
                if y == x {
                    assert(str_le(s[0], x));
                } else {
                    assert(s.skip(1).contains(y));
                    let m = choose|m: int| 0 <= m < s.skip(1).len() && s.skip(1)[m] == y;
                    assert(s.skip(1)[m] == s[m + 1]);
                    assert(str_le(s[0], s[m + 1]));
                }
            } else {
                assert(str_le(u[i - 1], u[j - 1]));
            }
        }
    }
}

/// The sorted arrangement is sorted, has the old length, and holds
/// exactly the old names.
pub proof fn lemma_sort_strs_props(s: Seq<Seq<char>>)
    ensures
        sorted_le(sort_strs(s)),
        forall|y: Seq<char>| #[trigger] sort_strs(s).contains(y) <==> s.contains(y),
        sort_strs(s).len() == s.len(),
    decreases s.len(),
{
    if s.len() == 0 {
    } else {
        lemma_sort_strs_props(s.drop_last());
        lemma_insert_le_sorted(s.last(), sort_strs(s.drop_last()));
        lemma_insert_le_contains(s.last(), sort_strs(s.drop_last()));
        assert forall|y: Seq<char>| #[trigger] sort_strs(s).contains(y) <==> s.contains(y) by {
            assert(sort_strs(s) == insert_le(s.last(), sort_strs(s.drop_last())));
            if sort_strs(s).contains(y) {
                if y == s.last() {
                    assert(s[s.len() - 1] == y);
                } else {
                    assert(sort_strs(s.drop_last()).contains(y));
                    assert(s.drop_last().contains(y));
                    let k = choose|k: int| 0 <= k < s.drop_last().len() && s.drop_last()[k] == y;
                    assert(s[k] == y);
                }
            }
            if s.contains(y) {
                let k = choose|k: int| 0 <= k < s.len() && s[k] == y;
                if k == s.len() - 1 {
                    assert(y == s.last());
                } else {
                    assert(s.drop_last()[k] == y);
                    assert(s.drop_last().contains(y));
                    assert(sort_strs(s.drop_last()).contains(y));
                }
            }
        }
    }
}

/// Inserting a fresh name keeps the entries pairwise distinct.
pub proof fn lemma_insert_le_no_dup(x: Seq<char>, s: Seq<Seq<char>>)
    requires
        s.no_duplicates(),
        !s.contains(x),
    ensures
        insert_le(x, s).no_duplicates(),
    decreases s.len(),
{
    if s.len() == 0 {
    } else if str_le(x, s[0]) {
        let t = seq![x] + s;
        assert(insert_le(x, s) == t);
        assert forall|i: int, j: int|
            0 <= i < t.len() && 0 <= j < t.len() && i != j implies t[i] != t[j] by {
            if i == 0 && j > 0 {
                if t[0] == t[j] {
                    assert(s.contains(x)) by {
                        assert(s[j - 1] == x);
                    }
                }
            } else if j == 0 && i > 0 {
                if t[0] == t[i] {
                    assert(s.contains(x)) by {
                        assert(s[i - 1] == x);
                    }
                }
            } else if i > 0 && j > 0 {
                assert(t[i] == s[i - 1] && t[j] == s[j - 1]);
            }
        }
    } else {
        assert forall|k: int| 0 <= k < s.skip(1).len() implies s.skip(1)[k] == s[k + 1] by {}
        assert(!s.skip(1).contains(x)) by {
            if s.skip(1).contains(x) {
                let k = choose|k: int| 0 <= k < s.skip(1).len() && s.skip(1)[k] == x;
                assert(s.contains(x)) by {
                    assert(s[k + 1] == x);
                }
            }
        }
        assert(s.skip(1).no_duplicates());
        lemma_insert_le_no_dup(x, s.skip(1));
        lemma_insert_le_contains(x, s.skip(1));
        let u = insert_le(x, s.skip(1));
        let t = seq![s[0]] + u;
        assert(insert_le(x, s) == t);
        assert(!u.contains(s[0])) by {
            if u.contains(s[0]) {
                if s[0] == x {
                    assert(s.contains(x)) by {
                        assert(s[0] == x);
                    }
                } else {
                    assert(s.skip(1).contains(s[0]));
                    let k = choose|k: int| 0 <= k < s.skip(1).len() && s.skip(1)[k] == s[0];
                    assert(s[k + 1] == s[0]);
                }
            }
        }
        assert forall|i: int, j: int|
            0 <= i < t.len() && 0 <= j < t.len() && i != j implies t[i] != t[j] by {
            if i == 0 && j > 0 {
                if t[0] == t[j] {
                    assert(u.contains(s[0])) by {
                        assert(u[j - 1] == s[0]);
                    }
                }
            } else if j == 0 && i > 0 {
                if t[0] == t[i] {
                    assert(u.contains(s[0])) by {
                        assert(u[i - 1] == s[0]);
                    }
                }
            } else if i > 0 && j > 0 {
                assert(t[i] == u[i - 1] && t[j] == u[j - 1]);
            }
        }
    }
}

/// Sorting pairwise distinct names keeps them pairwise distinct.
pub proof fn lemma_sort_strs_no_dup(s: Seq<Seq<char>>)
    requires
        s.no_duplicates(),
    ensures
        sort_strs(s).no_duplicates(),
    decreases s.len(),
{
    if s.len() > 0 {
        assert(s.drop_last().no_duplicates());
        lemma_sort_strs_no_dup(s.drop_last());
        lemma_sort_strs_props(s.drop_last());
        assert(!sort_strs(s.drop_last()).contains(s.last())) by {
            if sort_strs(s.drop_last()).contains(s.last()) {
                assert(s.drop_last().contains(s.last()));
                let k = choose|k: int| 0 <= k < s.drop_last().len() && s.drop_last()[k] == s.last();
                assert(s[k] == s[s.len() - 1]);
            }
        }
        lemma_insert_le_no_dup(s.last(), sort_strs(s.drop_last()));
    }
}

/// Where the insertion point is known, insertion is a splice.
proof fn lemma_insert_le_at(x: Seq<char>, s: Seq<Seq<char>>, j: int)
    requires
        0 <= j <= s.len(),
        forall|k: int| 0 <= k < j ==> !str_le(x, #[trigger] s[k]),
        j < s.len() ==> str_le(x, s[j]),
    ensures
        insert_le(x, s) == s.take(j) + seq![x] + s.skip(j),
    decreases j,
{
    if j == 0 {
        if s.len() == 0 {
            assert(insert_le(x, s) =~= s.take(0) + seq![x] + s.skip(0));
        } else {
            assert(insert_le(x, s) == seq![x] + s);
            assert(seq![x] + s =~= s.take(0) + seq![x] + s.skip(0));
        }
    } else {
        assert(!str_le(x, s[0]));
        assert(insert_le(x, s) == seq![s[0]] + insert_le(x, s.skip(1)));
        assert forall|k: int| 0 <= k < j - 1 implies !str_le(x, #[trigger] s.skip(1)[k]) by {
            assert(s.skip(1)[k] == s[k + 1]);
        }
        if j - 1 < s.skip(1).len() {
            assert(s.skip(1)[j - 1] == s[j]);
        }
        lemma_insert_le_at(x, s.skip(1), j - 1);
        assert(seq![s[0]] + (s.skip(1).take(j - 1) + seq![x] + s.skip(1).skip(j - 1)) =~= s.take(j)
            + seq![x] + s.skip(j));
    }
}

/// The index of the first entry that the name comes no later than; the
/// length when there is none.
fn insertion_point(names: &Vec<String>, x: &String) -> (j: usize)
    ensures
        j <= names.len(),
        forall|k: int| 0 <= k < j ==> !str_le(x@, #[trigger] names.deep_view()[k]),
        j < names.len() ==> str_le(x@, names.deep_view()[j as int]),
{
    let ghost nv = names.deep_view();
    let mut j: usize = 0;
    while j < names.len()
        invariant
            j <= names.len(),
            nv == names.deep_view(),
            forall|k: int| 0 <= k < j ==> !str_le(x@, #[trigger] nv[k]),
        decreases names.len() - j,
    {
        proof {
            assert(nv[j as int] == names@[j as int].deep_view());
        }
        if text_le(x, &names[j]) {
            return j;
        }
        j = j + 1;
    }
    j
}

/// Inserts the name into a vector that is arranged by [`str_le`].
pub fn insert_sorted(out: &mut Vec<String>, x: String)
    ensures
        final(out).deep_view() == insert_le(x@, old(out).deep_view()),
{
    let ghost sv = old(out).deep_view();
    let ghost xv = x@;
    let j = insertion_point(out, &x);
    proof {
        lemma_insert_le_at(xv, sv, j as int);
    }
    out.insert(j, x);
    proof {
        assert(out.deep_view() =~= sv.take(j as int) + seq![xv] + sv.skip(j as int));
    }
}

} // verus!
