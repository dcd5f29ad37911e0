use vstd::prelude::*;

verus! {

/// LMDB's default key order: bytes compared one by one, and a key that is a
/// proper prefix of another sorts first.
pub open spec fn key_lt(a: Seq<u8>, b: Seq<u8>) -> bool
    decreases a.len(),
{
    if a.len() == 0 {
        b.len() > 0
    } else if b.len() == 0 {
        false
    } else if a[0] != b[0] {
        a[0] < b[0]
    } else {
        key_lt(a.drop_first(), b.drop_first())
    }
}

pub proof fn lemma_lt_irreflexive(a: Seq<u8>)
    ensures
        !key_lt(a, a),
    decreases a.len(),
{
    if a.len() > 0 {
        lemma_lt_irreflexive(a.drop_first());
    }
}

pub proof fn lemma_lt_asymmetric(a: Seq<u8>, b: Seq<u8>)
    ensures
        key_lt(a, b) ==> !key_lt(b, a),
    decreases a.len(),
{
    if a.len() > 0 && b.len() > 0 && a[0] == b[0] {
        lemma_lt_asymmetric(a.drop_first(), b.drop_first());
    }
}

pub proof fn lemma_lt_total(a: Seq<u8>, b: Seq<u8>)
    ensures
        a == b || key_lt(a, b) || key_lt(b, a),
    decreases a.len(),
{
    if a.len() > 0 && b.len() > 0 && a[0] == b[0] {
        lemma_lt_total(a.drop_first(), b.drop_first());
        if a.drop_first() == b.drop_first() {
            assert(a.drop_first().len() == a.len() - 1);
            assert(b.drop_first().len() == b.len() - 1);
            assert(a.len() == b.len());
            assert forall|i: int| 0 <= i < a.len() implies a[i] == b[i] by {
                if i > 0 {
                    assert(a[i] == a.drop_first()[i - 1]);
                    assert(b[i] == b.drop_first()[i - 1]);
                }
            }
            assert(a =~= b);
        }
    } else if a.len() == 0 && b.len() == 0 {
        assert(a =~= b);
    }
}

pub proof fn lemma_lt_transitive(a: Seq<u8>, b: Seq<u8>, c: Seq<u8>)
    ensures
        key_lt(a, b) && key_lt(b, c) ==> key_lt(a, c),
    decreases a.len(),
{
    if a.len() > 0 && b.len() > 0 && c.len() > 0 && a[0] == b[0] && b[0] == c[0] {
        lemma_lt_transitive(a.drop_first(), b.drop_first(), c.drop_first());
    }
}

/// The order is strict and total: the facts that the cursor moves rest on.
pub proof fn lemma_key_order()
    ensures
        forall|a: Seq<u8>| !key_lt(a, a),
        forall|a: Seq<u8>, b: Seq<u8>| #[trigger] key_lt(a, b) ==> !key_lt(b, a),
        forall|a: Seq<u8>, b: Seq<u8>| a == b || #[trigger] key_lt(a, b) || key_lt(b, a),
        forall|a: Seq<u8>, b: Seq<u8>, c: Seq<u8>|
            #[trigger] key_lt(a, b) && #[trigger] key_lt(b, c) ==> key_lt(a, c),
{
    assert forall|a: Seq<u8>| !key_lt(a, a) by {
        lemma_lt_irreflexive(a);
    }
    assert forall|a: Seq<u8>, b: Seq<u8>| #[trigger] key_lt(a, b) implies !key_lt(b, a) by {
        lemma_lt_asymmetric(a, b);
    }
    assert forall|a: Seq<u8>, b: Seq<u8>| a == b || #[trigger] key_lt(a, b) || key_lt(b, a) by {
        lemma_lt_total(a, b);
    }
    assert forall|a: Seq<u8>, b: Seq<u8>, c: Seq<u8>|
        #[trigger] key_lt(a, b) && #[trigger] key_lt(b, c) implies key_lt(a, c) by {
        lemma_lt_transitive(a, b, c);
    }
}

/// `k` is the least key of the table.
pub open spec fn first_key(m: Map<Seq<u8>, Seq<u8>>, k: Seq<u8>) -> bool {
    m.contains_key(k) && forall|x: Seq<u8>| #[trigger] m.contains_key(x) ==> !key_lt(x, k)
}

/// `k` is the greatest key of the table.
pub open spec fn last_key(m: Map<Seq<u8>, Seq<u8>>, k: Seq<u8>) -> bool {
    m.contains_key(k) && forall|x: Seq<u8>| #[trigger] m.contains_key(x) ==> !key_lt(k, x)
}

/// `k` is the least key of the table that is not below `lo`.
pub open spec fn first_from(m: Map<Seq<u8>, Seq<u8>>, lo: Seq<u8>, k: Seq<u8>) -> bool {
    &&& m.contains_key(k)
    &&& !key_lt(k, lo)
    &&& forall|x: Seq<u8>| #[trigger] m.contains_key(x) && !key_lt(x, lo) ==> !key_lt(x, k)
}

/// `k` is the least key of the table above `lo`.
pub open spec fn first_above(m: Map<Seq<u8>, Seq<u8>>, lo: Seq<u8>, k: Seq<u8>) -> bool {
    &&& m.contains_key(k)
    &&& key_lt(lo, k)
    &&& forall|x: Seq<u8>| #[trigger] m.contains_key(x) && key_lt(lo, x) ==> !key_lt(x, k)
}

/// `k` is the greatest key of the table below `hi`.
pub open spec fn last_below(m: Map<Seq<u8>, Seq<u8>>, hi: Seq<u8>, k: Seq<u8>) -> bool {
    &&& m.contains_key(k)
    &&& key_lt(k, hi)
    &&& forall|x: Seq<u8>| #[trigger] m.contains_key(x) && key_lt(x, hi) ==> !key_lt(k, x)
}

/// `k` is the greatest key of the table that is not above `hi`.
pub open spec fn last_upto(m: Map<Seq<u8>, Seq<u8>>, hi: Seq<u8>, k: Seq<u8>) -> bool {
    &&& m.contains_key(k)
    &&& !key_lt(hi, k)
    &&& forall|x: Seq<u8>| #[trigger] m.contains_key(x) && !key_lt(hi, x) ==> !key_lt(k, x)
}

} // verus!
