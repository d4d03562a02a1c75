//! Sequences of `(name, value)` pairs that list a map: sorted by name, each
//! name once, and the facts that keep such a listing right as entries are
//! replaced or inserted.
use vstd::prelude::*;

use crate::text::{chars_lt, lemma_chars_lt_irreflexive, lemma_chars_lt_total, lemma_chars_lt_transitive};

verus! {

/// `r` lists the map `m`: sorted by key, each key of `m` once.
pub open spec fn lists_map<V>(r: Seq<(Seq<char>, V)>, m: Map<Seq<char>, V>) -> bool {
    &&& forall|i: int, j: int| 0 <= i < j < r.len() ==> chars_lt(#[trigger] r[i].0, #[trigger] r[j].0)
    &&& forall|i: int| 0 <= i < r.len() ==> #[trigger] m.dom().contains(r[i].0) && m[r[i].0] == r[i].1
    &&& forall|k: Seq<char>| #[trigger] m.dom().contains(k) ==> exists|i: int| 0 <= i < r.len() && r[i].0 == k
}

pub proof fn lemma_keyed_replace<V>(
    r: Seq<(Seq<char>, V)>,
    m: Map<Seq<char>, V>,
    j: int,
    k: Seq<char>,
    l: V,
)
    requires
        lists_map(r, m),
        0 <= j < r.len(),
        r[j].0 == k,
    ensures
        lists_map(r.update(j, (k, l)), m.insert(k, l)),
{
    let w = r.update(j, (k, l));
    let n = m.insert(k, l);
    assert forall|i: int, a: int| 0 <= i < a < w.len() implies chars_lt(#[trigger] w[i].0, #[trigger] w[a].0) by {
        assert(chars_lt(r[i].0, r[a].0));
    }
    assert forall|i: int| 0 <= i < w.len() implies #[trigger] n.dom().contains(w[i].0) && n[w[i].0] == w[i].1 by {
        if i != j {
            assert(m.dom().contains(r[i].0));
            if r[i].0 == k {
                if i < j {
                    assert(chars_lt(r[i].0, r[j].0));
                } else {
                    assert(chars_lt(r[j].0, r[i].0));
                }
                lemma_chars_lt_irreflexive(k);
            }
        }
    }
    assert forall|q: Seq<char>| #[trigger] n.dom().contains(q) implies exists|i: int| 0 <= i < w.len() && w[i].0 == q by {
        if q == k {
            assert(w[j].0 == q);
        } else {
            assert(m.dom().contains(q));
            let i = choose|i: int| 0 <= i < r.len() && r[i].0 == q;
            assert(w[i].0 == q);
        }
    }
}

pub proof fn lemma_keyed_insert<V>(
    r: Seq<(Seq<char>, V)>,
    m: Map<Seq<char>, V>,
    j: int,
    k: Seq<char>,
    l: V,
)
    requires
        lists_map(r, m),
        0 <= j <= r.len(),
        forall|i: int| 0 <= i < j ==> chars_lt(#[trigger] r[i].0, k),
        j < r.len() ==> !chars_lt(r[j].0, k) && r[j].0 != k,
    ensures
        lists_map(r.insert(j, (k, l)), m.insert(k, l)),
{
    let w = r.insert(j, (k, l));
    let n = m.insert(k, l);
    if j < r.len() {
        lemma_chars_lt_total(r[j].0, k);
    }
    assert(!m.dom().contains(k)) by {
        if m.dom().contains(k) {
            let i = choose|i: int| 0 <= i < r.len() && r[i].0 == k;
            if i < j {
                lemma_chars_lt_irreflexive(k);
            } else if i > j {
                assert(chars_lt(r[j].0, r[i].0));
            }
        }
    }
    assert forall|a: int, b: int| 0 <= a < b < w.len() implies chars_lt(#[trigger] w[a].0, #[trigger] w[b].0) by {
        if b < j {
            assert(w[a] == r[a] && w[b] == r[b]);
        } else if b == j {
            assert(w[a] == r[a] && w[b] == (k, l));
        } else if a < j {
            assert(w[a] == r[a] && w[b] == r[b - 1]);
            if b - 1 > j {
                lemma_chars_lt_transitive(r[a].0, k, r[j].0);
                lemma_chars_lt_transitive(r[a].0, r[j].0, r[b - 1].0);
            } else {
                lemma_chars_lt_transitive(r[a].0, k, r[j].0);
            }
        } else if a == j {
            assert(w[a] == (k, l) && w[b] == r[b - 1]);
            if b - 1 > j {
                lemma_chars_lt_transitive(k, r[j].0, r[b - 1].0);
            }
        } else {
            assert(w[a] == r[a - 1] && w[b] == r[b - 1]);
        }
    }
    assert forall|i: int| 0 <= i < w.len() implies #[trigger] n.dom().contains(w[i].0) && n[w[i].0] == w[i].1 by {
        if i < j {
            assert(w[i] == r[i]);
            assert(m.dom().contains(r[i].0));
        } else if i > j {
            assert(w[i] == r[i - 1]);
            assert(m.dom().contains(r[i - 1].0));
        }
    }
    assert forall|q: Seq<char>| #[trigger] n.dom().contains(q) implies exists|i: int| 0 <= i < w.len() && w[i].0 == q by {
        if q == k {
            assert(w[j].0 == q);
        } else {
            assert(m.dom().contains(q));
            let i = choose|i: int| 0 <= i < r.len() && r[i].0 == q;
            if i < j {
                assert(w[i].0 == q);
            } else {
                assert(w[i + 1].0 == q);
            }
        }
    }
}


} // verus!
