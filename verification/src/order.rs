use vstd::prelude::*;
use vstd::relations::sorted_by;
use vstd::relations::total_ordering;
use crate::model::link_views;

verus! {

/// Lexicographic "less or equal" on character sequences, by code point.
pub open spec fn lex_le(a: Seq<char>, b: Seq<char>) -> bool
    decreases a.len(),
{
    if a.len() == 0 {
        true
    } else if b.len() == 0 {
        false
    } else if a[0] != b[0] {
        (a[0] as u32) < (b[0] as u32)
    } else {
        lex_le(a.drop_first(), b.drop_first())
    }
}

/// Every character sequence compares less-or-equal to itself.
pub proof fn lemma_lex_le_refl(a: Seq<char>)
    ensures
        lex_le(a, a),
    decreases a.len(),
{
    if a.len() > 0 {
        lemma_lex_le_refl(a.drop_first());
    }
}

/// Two character sequences each less-or-equal to the other are equal.
pub proof fn lemma_lex_le_antisym(a: Seq<char>, b: Seq<char>)
    requires
        lex_le(a, b),
        lex_le(b, a),
    ensures
        a == b,
    decreases a.len(),
{
    if a.len() == 0 {
        assert(b.len() == 0);
        assert(a =~= b);
    } else {
        assert(b.len() > 0);
        assert(a[0] == b[0]);
        lemma_lex_le_antisym(a.drop_first(), b.drop_first());
        assert forall|i: int| 0 <= i < a.len() implies a[i] == b[i] by {
            if i > 0 {
                assert(a[i] == a.drop_first()[i - 1]);
                assert(b[i] == b.drop_first()[i - 1]);
            }
        }
        assert(a =~= b);
    }
}

/// Distinct characters have distinct code points.
proof fn lemma_char_code_distinct(c1: char, c2: char)
    requires
        c1 != c2,
    ensures
        c1 as u32 != c2 as u32,
{
}

/// The lexicographic order is total: any two sequences are comparable.
pub proof fn lemma_lex_le_total(a: Seq<char>, b: Seq<char>)
    ensures
        lex_le(a, b) || lex_le(b, a),
    decreases a.len(),
{
    if a.len() == 0 {
    } else if b.len() == 0 {
        assert(lex_le(b, a));
    } else if a[0] == b[0] {
        lemma_lex_le_total(a.drop_first(), b.drop_first());
    } else {
        lemma_char_code_distinct(a[0], b[0]);
    }
}

/// The lexicographic order is transitive.
pub proof fn lemma_lex_le_trans(a: Seq<char>, b: Seq<char>, c: Seq<char>)
    requires
        lex_le(a, b),
        lex_le(b, c),
    ensures
        lex_le(a, c),
    decreases a.len(),
{
    if a.len() > 0 {
        assert(b.len() > 0);
        assert(c.len() > 0);
        if a[0] == b[0] && b[0] == c[0] {
            lemma_lex_le_trans(a.drop_first(), b.drop_first(), c.drop_first());
        }
    }
}

/// Order on link entries: by key, and for equal keys by value, so that the
/// relation is a total ordering on entry pairs.
pub open spec fn link_le(x: (Seq<char>, Seq<char>), y: (Seq<char>, Seq<char>)) -> bool {
    lex_le(x.0, y.0) && (!lex_le(y.0, x.0) || lex_le(x.1, y.1))
}

/// The entry order as a relation value, in the form vstd's sorting
/// vocabulary speaks of.
pub open spec fn link_order() -> spec_fn((Seq<char>, Seq<char>), (Seq<char>, Seq<char>)) -> bool {
    |x: (Seq<char>, Seq<char>), y: (Seq<char>, Seq<char>)| link_le(x, y)
}

/// Every link entry compares less-or-equal to itself.
pub proof fn lemma_link_le_refl(x: (Seq<char>, Seq<char>))
    ensures
        link_le(x, x),
{
    lemma_lex_le_refl(x.0);
    lemma_lex_le_refl(x.1);
}

/// The entry order is transitive.
pub proof fn lemma_link_le_trans(
    x: (Seq<char>, Seq<char>),
    y: (Seq<char>, Seq<char>),
    z: (Seq<char>, Seq<char>),
)
    requires
        link_le(x, y),
        link_le(y, z),
    ensures
        link_le(x, z),
{
    lemma_lex_le_trans(x.0, y.0, z.0);
    if lex_le(z.0, x.0) {
        lemma_lex_le_trans(y.0, z.0, x.0);
        lemma_lex_le_antisym(x.0, y.0);
        lemma_lex_le_trans(z.0, x.0, y.0);
        lemma_lex_le_antisym(y.0, z.0);
        lemma_lex_le_refl(x.0);
        lemma_lex_le_refl(y.0);
        assert(lex_le(x.1, y.1));
        assert(lex_le(y.1, z.1));
        lemma_lex_le_trans(x.1, y.1, z.1);
    }
}

/// The entry order is a total ordering.
pub proof fn lemma_link_order_total()
    ensures
        total_ordering(link_order()),
{
    let leq = link_order();
    assert forall|x: (Seq<char>, Seq<char>)| #[trigger] leq(x, x) by {
        lemma_lex_le_refl(x.0);
        lemma_lex_le_refl(x.1);
    }
    assert forall|x: (Seq<char>, Seq<char>), y: (Seq<char>, Seq<char>)|
        #[trigger] leq(x, y) && #[trigger] leq(y, x) implies x == y by {
        lemma_lex_le_antisym(x.0, y.0);
        lemma_lex_le_antisym(x.1, y.1);
    }
    assert forall|x: (Seq<char>, Seq<char>), y: (Seq<char>, Seq<char>), z: (Seq<char>, Seq<char>)|
        #[trigger] leq(x, y) && #[trigger] leq(y, z) implies leq(x, z) by {
        lemma_link_le_trans(x, y, z);
    }
    assert forall|x: (Seq<char>, Seq<char>), y: (Seq<char>, Seq<char>)|
        #[trigger] leq(x, y) || #[trigger] leq(y, x) by {
        lemma_lex_le_total(x.0, y.0);
        lemma_lex_le_total(x.1, y.1);
        if lex_le(x.0, y.0) && lex_le(y.0, x.0) {
            lemma_lex_le_antisym(x.0, y.0);
        }
    }
}

/// Decide the lexicographic order on two strings.
pub fn str_le(a: &str, b: &str) -> (r: bool)
    ensures
        r == lex_le(a@, b@),
{
    let an: usize = a.unicode_len();
    let bn: usize = b.unicode_len();
    let mut i: usize = 0;
    proof {
        assert(a@.skip(0) =~= a@);
        assert(b@.skip(0) =~= b@);
    }
    while i < an && i < bn
        invariant
            i <= an,
            i <= bn,
            an == a@.len(),
            bn == b@.len(),
            lex_le(a@, b@) == lex_le(a@.skip(i as int), b@.skip(i as int)),
        decreases an - i,
    {
        let ca = a.get_char(i);
        let cb = b.get_char(i);
        proof {
            assert(a@.skip(i as int)[0] == a@[i as int]);
            assert(b@.skip(i as int)[0] == b@[i as int]);
        }
        if ca != cb {
            return (ca as u32) < (cb as u32);
        }
        proof {
            assert(a@.skip(i as int).drop_first() =~= a@.skip(i + 1));
            assert(b@.skip(i as int).drop_first() =~= b@.skip(i + 1));
        }
        i = i + 1;
    }
    proof {
        if i >= an {
            assert(a@.skip(i as int) =~= Seq::<char>::empty());
        } else {
            assert(b@.skip(i as int) =~= Seq::<char>::empty());
            assert(a@.skip(i as int).len() > 0);
        }
    }
    an <= bn
}

/// Decide string equality, through the lexicographic order.
pub fn str_eq(a: &str, b: &str) -> (r: bool)
    ensures
        r == (a@ == b@),
{
    let le1 = str_le(a, b);
    let le2 = str_le(b, a);
    proof {
        if lex_le(a@, b@) && lex_le(b@, a@) {
            lemma_lex_le_antisym(a@, b@);
        }
        if a@ == b@ {
            lemma_lex_le_refl(a@);
        }
    }
    le1 && le2
}

/// Decide the entry order on two link entries.
pub fn link_le_exec(x: &(String, String), y: &(String, String)) -> (r: bool)
    ensures
        r == link_le((x.0@, x.1@), (y.0@, y.1@)),
{
    let key_le = str_le(x.0.as_str(), y.0.as_str());
    if !key_le {
        return false;
    }
    let key_ge = str_le(y.0.as_str(), x.0.as_str());
    if !key_ge {
        return true;
    }
    str_le(x.1.as_str(), y.1.as_str())
}

/// Sort link entries into the canonical key-sorted order. The result holds
/// exactly the entries of the input, rearranged.
pub fn sort_links(v: Vec<(String, String)>) -> (r: Vec<(String, String)>)
    ensures
        sorted_by(link_views(r@), link_order()),
        link_views(r@).to_multiset() == link_views(v@).to_multiset(),
{
    broadcast use vstd::seq_lib::group_to_multiset_ensures;
    broadcast use vstd::multiset::group_multiset_axioms;

    let mut rem = v;
    let mut out: Vec<(String, String)> = Vec::new();
    let ghost all = link_views(rem@);
    proof {
        assert(link_views(out@) =~= Seq::<(Seq<char>, Seq<char>)>::empty());
        assert(link_views(out@).to_multiset().add(link_views(rem@).to_multiset())
            =~= all.to_multiset());
    }
    while rem.len() > 0
        invariant
            sorted_by(link_views(out@), link_order()),
            forall|i: int, j: int|
                0 <= i < out@.len() && 0 <= j < rem@.len() ==> link_le(
                    #[trigger] link_views(out@)[i],
                    #[trigger] link_views(rem@)[j],
                ),
            link_views(out@).to_multiset().add(link_views(rem@).to_multiset())
                == all.to_multiset(),
        decreases rem.len(),
    {
        let mut k: usize = 0;
        let mut j: usize = 1;
        proof {
            lemma_link_le_refl(link_views(rem@)[0]);
        }
        while j < rem.len()
            invariant
                k < j,
                j <= rem@.len(),
                rem@.len() > 0,
                forall|m: int|
                    0 <= m < j ==> link_le(
                        link_views(rem@)[k as int],
                        #[trigger] link_views(rem@)[m],
                    ),
            decreases rem@.len() - j,
        {
            if link_le_exec(&rem[j], &rem[k]) {
                proof {
                    let lv = link_views(rem@);
                    assert forall|m: int| 0 <= m < j + 1 implies link_le(
                        lv[j as int],
                        #[trigger] lv[m],
                    ) by {
                        if m == j {
                            lemma_link_le_refl(lv[j as int]);
                        } else {
                            lemma_link_le_trans(lv[j as int], lv[k as int], lv[m]);
                        }
                    }
                }
                k = j;
            } else {
                proof {
                    let lv = link_views(rem@);
                    lemma_lex_le_total(lv[k as int].0, lv[j as int].0);
                    lemma_lex_le_total(lv[k as int].1, lv[j as int].1);
                    if lex_le(lv[k as int].0, lv[j as int].0) && lex_le(
                        lv[j as int].0,
                        lv[k as int].0,
                    ) {
                        lemma_lex_le_antisym(lv[k as int].0, lv[j as int].0);
                    }
                    assert(link_le(lv[k as int], lv[j as int]));
                }
            }
            j = j + 1;
        }
        let ghost old_out = out@;
        let ghost old_rem = rem@;
        let x = rem.remove(k);
        out.push(x);
        proof {
            let leq = link_order();
            let xv = (x.0@, x.1@);
            assert(link_views(old_rem)[k as int] == xv);
            assert(link_views(rem@) =~= link_views(old_rem).remove(k as int));
            assert(link_views(out@) =~= link_views(old_out).push(xv));
            // the minimum found is below everything still remaining
            assert forall|jj: int| 0 <= jj < rem@.len() implies link_le(
                xv,
                #[trigger] link_views(rem@)[jj],
            ) by {
                if jj < k {
                    assert(link_views(rem@)[jj] == link_views(old_rem)[jj]);
                } else {
                    assert(link_views(rem@)[jj] == link_views(old_rem)[jj + 1]);
                }
            }
            // everything already emitted is below everything still remaining
            assert forall|i: int, jj: int|
                0 <= i < out@.len() && 0 <= jj < rem@.len() implies link_le(
                    #[trigger] link_views(out@)[i],
                    #[trigger] link_views(rem@)[jj],
                ) by {
                let r_jj = if jj < k {
                    jj
                } else {
                    jj + 1
                };
                assert(link_views(rem@)[jj] == link_views(old_rem)[r_jj]);
                if i < old_out.len() {
                    assert(link_views(out@)[i] == link_views(old_out)[i]);
                }
            }
            // sortedness of the grown output
            assert forall|i: int, jj: int|
                0 <= i < jj < link_views(out@).len() implies #[trigger] leq(
                    link_views(out@)[i],
                    link_views(out@)[jj],
                ) by {
                if jj < link_views(out@).len() - 1 {
                    assert(leq(link_views(old_out)[i], link_views(old_out)[jj]));
                } else {
                    assert(link_le(link_views(old_out)[i], link_views(old_rem)[k as int]));
                }
            }
            // multiset bookkeeping: moving one entry keeps the union
            assert(link_views(old_rem).contains(xv)) by {
                assert(link_views(old_rem)[k as int] == xv);
            }
            link_views(old_out).to_multiset_ensures();
            link_views(old_rem).to_multiset_ensures();
            assert(link_views(out@).to_multiset() =~= link_views(old_out).to_multiset().insert(
                xv,
            ));
            assert(link_views(rem@).to_multiset() =~= link_views(old_rem).to_multiset().remove(
                xv,
            ));
            assert(link_views(out@).to_multiset().add(link_views(rem@).to_multiset())
                =~= all.to_multiset());
        }
    }
    proof {
        assert(link_views(rem@) =~= Seq::<(Seq<char>, Seq<char>)>::empty());
        assert(link_views(out@).to_multiset().add(link_views(rem@).to_multiset())
            =~= link_views(out@).to_multiset());
    }
    out
}

} // verus!
