//! The database of saved novels, a `BTreeMap` from id to record, and its
//! entries in key order.

use vstd::prelude::*;
use std::collections::BTreeMap;
use crate::model::NovelRecord;
use crate::records::keys_increasing;
use vstd::std_specs::btree::increasing_seq;
use vstd::std_specs::cmp::OrdSpec;
use vstd::std_specs::iter::IteratorSpec;

verus! {

broadcast use vstd::std_specs::btree::group_btree_axioms, vstd::laws_cmp::group_laws_cmp;

/// Every entry is one of the map's, key and record.
pub open spec fn entries_in(s: Seq<(u64, NovelRecord)>, m: Map<u64, NovelRecord>) -> bool {
    forall|i: int| 0 <= i < s.len() ==> m.contains_key(#[trigger] s[i].0) && m[s[i].0] == s[i].1
}

/// Every key of the map has an entry.
pub open spec fn keys_listed(s: Seq<(u64, NovelRecord)>, m: Map<u64, NovelRecord>) -> bool {
    forall|k: u64| #[trigger] m.contains_key(k) ==> exists|i: int| 0 <= i < s.len() && s[i].0 == k
}

/// The entries of the map in key order, as a `BTreeMap` yields them.
pub open spec fn listed_in_order(s: Seq<(u64, NovelRecord)>, m: Map<u64, NovelRecord>) -> bool {
    keys_increasing(s) && entries_in(s, m) && keys_listed(s, m)
}

/// The database's entries in key order.
pub open spec fn key_order(m: Map<u64, NovelRecord>) -> Seq<(u64, NovelRecord)> {
    choose|s: Seq<(u64, NovelRecord)>| listed_in_order(s, m)
}

/// Two listings of a map in key order are the same.
pub proof fn lemma_key_order_unique(s: Seq<(u64, NovelRecord)>, t: Seq<(u64, NovelRecord)>, m: Map<
    u64,
    NovelRecord,
>)
    requires
        listed_in_order(s, m),
        listed_in_order(t, m),
    ensures
        s == t,
    decreases s.len() + t.len(),
{
    if s.len() == 0 {
        if t.len() > 0 {
            assert(m.contains_key(t[0].0));
        }
        assert(s =~= t);
    } else if t.len() == 0 {
        assert(m.contains_key(s[0].0));
    } else {
        let a = s.last().0;
        let b = t.last().0;
        assert(m.contains_key(a));
        assert(m.contains_key(b));
        let j = choose|j: int| 0 <= j < t.len() && t[j].0 == a;
        let i = choose|i: int| 0 <= i < s.len() && s[i].0 == b;
        if j < t.len() - 1 {
            assert(t[j].0 < t[t.len() - 1].0);
        }
        if i < s.len() - 1 {
            assert(s[i].0 < s[s.len() - 1].0);
        }
        assert(a == b);
        let m2 = m.remove(a);
        let s2 = s.drop_last();
        let t2 = t.drop_last();
        assert forall|k: u64| #[trigger] m2.contains_key(k) implies exists|x: int| 0 <= x < s2.len() && s2[x].0 == k by {
            let x = choose|x: int| 0 <= x < s.len() && s[x].0 == k;
            assert(x != s.len() - 1);
            assert(s2[x].0 == k);
        }
        assert forall|k: u64| #[trigger] m2.contains_key(k) implies exists|x: int| 0 <= x < t2.len() && t2[x].0 == k by {
            let x = choose|x: int| 0 <= x < t.len() && t[x].0 == k;
            assert(x != t.len() - 1);
            assert(t2[x].0 == k);
        }
        assert forall|x: int| 0 <= x < s2.len() implies m2.contains_key(#[trigger] s2[x].0) && m2[s2[x].0] == s2[x].1 by {
            assert(s[x].0 < a);
        }
        assert forall|x: int| 0 <= x < t2.len() implies m2.contains_key(#[trigger] t2[x].0) && m2[t2[x].0] == t2[x].1 by {
            assert(t[x].0 < a);
        }
        lemma_key_order_unique(s2, t2, m2);
        assert(s.last() == t.last());
        assert(s =~= s2.push(s.last()));
        assert(t =~= t2.push(t.last()));
    }
}

/// `u64` keys obey the order laws that the map's specifications ask for.
pub proof fn lemma_u64_keys_ordered()
    ensures
        vstd::laws_cmp::obeys_cmp::<u64>(),
{
}

/// The entries as references into the map, seen as entries.
pub open spec fn entry_views(v: Seq<(u64, &NovelRecord)>) -> Seq<(u64, NovelRecord)> {
    v.map_values(|e: (u64, &NovelRecord)| (e.0, *e.1))
}

proof fn lemma_increasing_keys(keys: Seq<u64>)
    requires
        increasing_seq(keys),
    ensures
        forall|i: int, j: int| 0 <= i < j < keys.len() ==> #[trigger] keys[i] < #[trigger] keys[j],
{
    assert forall|i: int, j: int| 0 <= i < j < keys.len() implies #[trigger] keys[i] < #[trigger] keys[j] by {
        assert(keys[i].cmp_spec(&keys[j]) is Less);
    }
}

/// The database's entries, key and record, in key order.
pub fn database_entries<'a>(db: &'a BTreeMap<u64, NovelRecord>) -> (res: Vec<(u64, &'a NovelRecord)>)
    ensures
        entry_views(res@) == key_order(db@),
{
    let mut out: Vec<(u64, &'a NovelRecord)> = Vec::new();
    let iter = db.iter();
    let ghost s = iter.remaining();
    let ghost keys = s.map_values(|kv: (&u64, &NovelRecord)| *kv.0);
    proof {
        lemma_increasing_keys(keys);
    }
    for kv in it: iter
        invariant
            it.seq() == s,
            out@ == s.take(it.index() as int).map_values(|kv: (&u64, &NovelRecord)| (*kv.0, kv.1)),
    {
        out.push((*kv.0, kv.1));
        assert(out@ =~= s.take(it.index() + 1).map_values(|kv: (&u64, &NovelRecord)| (*kv.0, kv.1)));
    }
    assert(out@ =~= s.map_values(|kv: (&u64, &NovelRecord)| (*kv.0, kv.1)));
    let ghost view = entry_views(out@);
    assert forall|i: int, j: int| 0 <= i < j < view.len() implies #[trigger] view[i].0 < #[trigger] view[j].0 by {
        assert(view[i].0 == keys[i] && view[j].0 == keys[j]);
    }
    assert forall|k: u64| #[trigger] db@.contains_key(k) implies exists|i: int| 0 <= i < view.len() && view[i].0 == k by {
        assert(s.contains((&k, &db@[k])));
        let i = choose|i: int| 0 <= i < s.len() && s[i] == (&k, &db@[k]);
        assert(view[i].0 == k);
    }
    assert forall|i: int| 0 <= i < view.len() implies db@.contains_key(#[trigger] view[i].0) && db@[view[i].0] == view[i].1 by {
        assert(out@[i] == (*s[i].0, s[i].1));
    }
    proof {
        assert(listed_in_order(view, db@));
        lemma_key_order_unique(view, key_order(db@), db@);
    }
    out
}

} // verus!
