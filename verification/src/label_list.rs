use vstd::prelude::*;

use crate::index_map::{float_map_entries, float_map_get_index, float_map_len, int_map_entries, int_map_get_index, int_map_len};
use crate::plot_filter::{
    chars_of, contains_chars, contains_text, decimal, decimal_chars, is_usize_number, lowercased,
    reads_as_usize, to_lowercase,
};
use crate::raw_plot::{FloatPlotType, IntPlotType, PlotType, RawPlotDb};

verus! {

/// The most plots of a list that a raw plot page lists.
pub const LABEL_LIST_MAX_LEN: usize = 10_000_000;

/// Whether `k` is a key of `db`.
pub open spec fn in_db(db: Seq<(usize, String)>, k: usize) -> bool {
    exists|j: int| 0 <= j < db.len() && #[trigger] db[j].0 == k
}

/// The label `db` gives to `k`, if any.
pub open spec fn db_label(db: Seq<(usize, String)>, k: usize) -> Option<Seq<char>> {
    if in_db(db, k) {
        Some(db[choose|j: int| 0 <= j < db.len() && #[trigger] db[j].0 == k].1@)
    } else {
        None
    }
}

/// No key occurs twice in `db`.
pub open spec fn keys_distinct(db: Seq<(usize, String)>) -> bool {
    forall|i: int, j: int| 0 <= i < db.len() && 0 <= j < db.len() && i != j ==> db[i].0 != db[j].0
}

/// The keys of `s` increase strictly.
pub open spec fn strictly_sorted(s: Seq<(usize, String)>) -> bool {
    forall|i: int, j: int| 0 <= i < j < s.len() ==> s[i].0 < s[j].0
}

/// `b` holds an entry with the key and label of `e`.
pub open spec fn has_entry(b: Seq<(usize, String)>, e: (usize, String)) -> bool {
    exists|j: int| 0 <= j < b.len() && #[trigger] b[j].0 == e.0 && b[j].1@ == e.1@
}

/// Every entry of `a` is in `b`.
pub open spec fn covered(a: Seq<(usize, String)>, b: Seq<(usize, String)>) -> bool {
    forall|i: int| 0 <= i < a.len() ==> #[trigger] has_entry(b, a[i])
}

/// `a` and `b` hold the same (key, label) entries.
pub open spec fn same_entries(a: Seq<(usize, String)>, b: Seq<(usize, String)>) -> bool {
    covered(a, b) && covered(b, a)
}

/// The number of entries of `s` whose key is below `k`.
fn count_below(s: &Vec<(usize, String)>, k: usize) -> (p: usize)
    requires
        strictly_sorted(s@),
    ensures
        p <= s@.len(),
        forall|i: int| 0 <= i < p ==> #[trigger] s@[i].0 < k,
        forall|i: int| p <= i < s@.len() ==> #[trigger] s@[i].0 >= k,
{
    let mut p: usize = 0;
    while p < s.len() && s[p].0 < k
        invariant
            p <= s@.len(),
            strictly_sorted(s@),
            forall|i: int| 0 <= i < p ==> #[trigger] s@[i].0 < k,
        decreases s@.len() - p,
    {
        p = p + 1;
    }
    proof {
        assert forall|i: int| p <= i < s@.len() implies #[trigger] s@[i].0 >= k by {
            if i > p {
                assert(s@[p as int].0 < s@[i].0);
            }
        }
    }
    p
}

/// Inserting an entry at its place keeps the keys strictly sorted.
proof fn lemma_insert_sorted(before: Seq<(usize, String)>, p: int, e: (usize, String))
    requires
        strictly_sorted(before),
        0 <= p <= before.len(),
        forall|i: int| 0 <= i < p ==> #[trigger] before[i].0 < e.0,
        forall|i: int| p <= i < before.len() ==> #[trigger] before[i].0 > e.0,
    ensures
        strictly_sorted(before.insert(p, e)),
{
    let after = before.insert(p, e);
    assert forall|x: int, y: int| 0 <= x < y < after.len() implies after[x].0 < after[y].0 by {
        if y < p {
        } else if y == p {
        } else if x < p {
            assert(after[y] == before[y - 1]);
        } else if x == p {
            assert(after[y] == before[y - 1]);
        } else {
            assert(after[y] == before[y - 1]);
            assert(after[x] == before[x - 1]);
        }
    }
}

/// Inserting the next entry of `db` keeps the entries those of the
/// prefix of `db` read so far.
proof fn lemma_insert_same_entries(before: Seq<(usize, String)>, db: Seq<(usize, String)>, i: int, p: int, e: (usize, String))
    requires
        0 <= i < db.len(),
        0 <= p <= before.len(),
        same_entries(before, db.take(i)),
        e.0 == db[i].0,
        e.1@ == db[i].1@,
    ensures
        same_entries(before.insert(p, e), db.take(i + 1)),
{
    let after = before.insert(p, e);
    let prev = db.take(i);
    let taken = db.take(i + 1);
    assert forall|x: int| 0 <= x < after.len() implies #[trigger] has_entry(taken, after[x]) by {
        if x < p {
            assert(after[x] == before[x]);
            assert(has_entry(prev, before[x]));
            let j = choose|j: int| 0 <= j < prev.len() && #[trigger] prev[j].0 == before[x].0 && prev[j].1@ == before[x].1@;
            assert(taken[j] == prev[j]);
        } else if x == p {
            assert(taken[i] == db[i]);
        } else {
            assert(after[x] == before[x - 1]);
            assert(has_entry(prev, before[x - 1]));
            let j = choose|j: int| 0 <= j < prev.len() && #[trigger] prev[j].0 == before[x - 1].0 && prev[j].1@ == before[x - 1].1@;
            assert(taken[j] == prev[j]);
        }
    }
    assert forall|j: int| 0 <= j < taken.len() implies #[trigger] has_entry(after, taken[j]) by {
        if j < i {
            assert(prev[j] == taken[j]);
            assert(has_entry(before, prev[j]));
            let x = choose|x: int| 0 <= x < before.len() && #[trigger] before[x].0 == prev[j].0 && before[x].1@ == prev[j].1@;
            if x < p {
                assert(after[x] == before[x]);
            } else {
                assert(after[x + 1] == before[x]);
            }
        } else {
            assert(after[p] == e);
        }
    }
}

/// A key of the next entry of `db` is not yet among the entries read.
proof fn lemma_fresh_key(sorted: Seq<(usize, String)>, db: Seq<(usize, String)>, i: int)
    requires
        0 <= i < db.len(),
        keys_distinct(db),
        same_entries(sorted, db.take(i)),
    ensures
        forall|x: int| 0 <= x < sorted.len() ==> #[trigger] sorted[x].0 != db[i].0,
{
    assert forall|x: int| 0 <= x < sorted.len() implies #[trigger] sorted[x].0 != db[i].0 by {
        let prev = db.take(i);
        assert(has_entry(prev, sorted[x]));
        let j = choose|j: int| 0 <= j < prev.len() && #[trigger] prev[j].0 == sorted[x].0 && prev[j].1@ == sorted[x].1@;
        assert(db[j].0 != db[i].0);
    }
}

/// The entries of `db` sorted by key.
pub fn sorted_db(db: &Vec<(usize, String)>) -> (sorted: Vec<(usize, String)>)
    requires
        keys_distinct(db@),
    ensures
        strictly_sorted(sorted@),
        same_entries(sorted@, db@),
{
    let mut sorted: Vec<(usize, String)> = Vec::new();
    let mut i: usize = 0;
    while i < db.len()
        invariant
            i <= db@.len(),
            keys_distinct(db@),
            strictly_sorted(sorted@),
            same_entries(sorted@, db@.take(i as int)),
        decreases db@.len() - i,
    {
        let k = db[i].0;
        let label = db[i].1.clone();
        let p = count_below(&sorted, k);
        proof {
            lemma_fresh_key(sorted@, db@, i as int);
            assert forall|x: int| p <= x < sorted@.len() implies #[trigger] sorted@[x].0 > k by {
                assert(sorted@[x].0 >= k);
                assert(sorted@[x].0 != db@[i as int].0);
            }
            lemma_insert_sorted(sorted@, p as int, (k, label));
            lemma_insert_same_entries(sorted@, db@, i as int, p as int, (k, label));
        }
        sorted.insert(p, (k, label));
        i = i + 1;
    }
    proof {
        assert(db@.take(i as int) =~= db@);
    }
    sorted
}

/// The keys of `s` increase strictly.
pub open spec fn keys_increase(s: Seq<usize>) -> bool {
    forall|i: int, j: int| 0 <= i < j < s.len() ==> s[i] < s[j]
}

/// Whether `k` is a plot id that the plots list: the ids below the length
/// of a list (at most `LABEL_LIST_MAX_LEN` of them), the keys of a map.
pub open spec fn in_base(plots: PlotType, k: usize) -> bool {
    match plots {
        PlotType::Boolean(v) => k < v@.len() && k < LABEL_LIST_MAX_LEN,
        PlotType::Int(IntPlotType::Vec(v)) => k < v@.len() && k < LABEL_LIST_MAX_LEN,
        PlotType::Float(FloatPlotType::Vec(v)) => k < v@.len() && k < LABEL_LIST_MAX_LEN,
        PlotType::Int(IntPlotType::IndexMap(m)) => exists|j: int|
            0 <= j < int_map_entries(m).len() && #[trigger] int_map_entries(m)[j].0 as usize == k,
        PlotType::Float(FloatPlotType::IndexMap(m)) => exists|j: int|
            0 <= j < float_map_entries(m).len() && #[trigger] float_map_entries(m)[j].0 as usize == k,
    }
}

/// The ids `0..n`.
fn id_range(n: usize) -> (ids: Vec<usize>)
    ensures
        keys_increase(ids@),
        forall|k: usize| ids@.contains(k) <==> k < n,
{
    let mut ids: Vec<usize> = Vec::new();
    let mut i: usize = 0;
    while i < n
        invariant
            i <= n,
            ids@.len() == i,
            forall|j: int| 0 <= j < i ==> #[trigger] ids@[j] == j,
        decreases n - i,
    {
        ids.push(i);
        i = i + 1;
    }
    proof {
        assert forall|k: usize| k < n implies ids@.contains(k) by {
            assert(ids@[k as int] == k);
        }
    }
    ids
}

/// Adds `k` to the strictly increasing `ids` when it is not there.
fn insert_id(ids: &mut Vec<usize>, k: usize)
    requires
        keys_increase(old(ids)@),
    ensures
        keys_increase(final(ids)@),
        forall|x: usize| final(ids)@.contains(x) <==> (old(ids)@.contains(x) || x == k),
{
    let mut p: usize = 0;
    while p < ids.len() && ids[p] < k
        invariant
            p <= ids@.len(),
            ids@ == old(ids)@,
            keys_increase(ids@),
            forall|i: int| 0 <= i < p ==> #[trigger] ids@[i] < k,
        decreases ids@.len() - p,
    {
        p = p + 1;
    }
    if p < ids.len() && ids[p] == k {
        return;
    }
    let ghost before = ids@;
    proof {
        assert forall|i: int| p <= i < before.len() implies #[trigger] before[i] > k by {
            if i > p {
                assert(before[p as int] < before[i]);
            }
        }
    }
    ids.insert(p, k);
    proof {
        let after = ids@;
        assert(after == before.insert(p as int, k));
        assert forall|x: int, y: int| 0 <= x < y < after.len() implies after[x] < after[y] by {
            if y < p {
            } else if y == p {
            } else if x < p {
                assert(after[y] == before[y - 1]);
            } else if x == p {
                assert(after[y] == before[y - 1]);
            } else {
                assert(after[y] == before[y - 1]);
                assert(after[x] == before[x - 1]);
            }
        }
        assert forall|x: usize| after.contains(x) <==> (before.contains(x) || x == k) by {
            if after.contains(x) {
                let i = choose|i: int| 0 <= i < after.len() && after[i] == x;
                if i < p {
                    assert(before[i] == x);
                } else if i > p {
                    assert(before[i - 1] == x);
                }
            }
            if before.contains(x) {
                let i = choose|i: int| 0 <= i < before.len() && before[i] == x;
                if i < p {
                    assert(after[i] == x);
                } else {
                    assert(after[i + 1] == x);
                }
            }
            if x == k {
                assert(after[p as int] == k);
            }
        }
    }
}

/// The plot ids that the plots list, in increasing order.
pub fn base_ids(plots: &PlotType) -> (ids: Vec<usize>)
    ensures
        keys_increase(ids@),
        forall|k: usize| ids@.contains(k) <==> in_base(*plots, k),
{
    match plots {
        PlotType::Boolean(v) => id_range(if v.len() < LABEL_LIST_MAX_LEN { v.len() } else { LABEL_LIST_MAX_LEN }),
        PlotType::Int(IntPlotType::Vec(v)) => id_range(if v.len() < LABEL_LIST_MAX_LEN { v.len() } else { LABEL_LIST_MAX_LEN }),
        PlotType::Float(FloatPlotType::Vec(v)) => id_range(if v.len() < LABEL_LIST_MAX_LEN { v.len() } else { LABEL_LIST_MAX_LEN }),
        PlotType::Int(IntPlotType::IndexMap(m)) => {
            let n = int_map_len(m);
            let ghost entries = int_map_entries(*m);
            let mut ids: Vec<usize> = Vec::new();
            let mut i: usize = 0;
            while i < n
                invariant
                    i <= n,
                    n == entries.len(),
                    entries == int_map_entries(*m),
                    keys_increase(ids@),
                    forall|k: usize| ids@.contains(k) <==> exists|j: int| 0 <= j < i && #[trigger] entries[j].0 as usize == k,
                decreases n - i,
            {
                let (key, _) = int_map_get_index(m, i).unwrap();
                let ghost before = ids@;
                insert_id(&mut ids, key as usize);
                proof {
                    assert forall|k: usize| ids@.contains(k) <==> exists|j: int| 0 <= j < i + 1 && #[trigger] entries[j].0 as usize == k by {
                        if exists|j: int| 0 <= j < i + 1 && #[trigger] entries[j].0 as usize == k {
                            let j = choose|j: int| 0 <= j < i + 1 && #[trigger] entries[j].0 as usize == k;
                            if j < i {
                                assert(before.contains(k));
                            }
                        }
                        if before.contains(k) {
                            let j = choose|j: int| 0 <= j < i && #[trigger] entries[j].0 as usize == k;
                        }
                        if k == key as usize {
                            assert(entries[i as int].0 as usize == k);
                        }
                    }
                }
                i = i + 1;
            }
            ids
        },
        PlotType::Float(FloatPlotType::IndexMap(m)) => {
            let n = float_map_len(m);
            let ghost entries = float_map_entries(*m);
            let mut ids: Vec<usize> = Vec::new();
            let mut i: usize = 0;
            while i < n
                invariant
                    i <= n,
                    n == entries.len(),
                    entries == float_map_entries(*m),
                    keys_increase(ids@),
                    forall|k: usize| ids@.contains(k) <==> exists|j: int| 0 <= j < i && #[trigger] entries[j].0 as usize == k,
                decreases n - i,
            {
                let (key, _) = float_map_get_index(m, i).unwrap();
                let ghost before = ids@;
                insert_id(&mut ids, key as usize);
                proof {
                    assert forall|k: usize| ids@.contains(k) <==> exists|j: int| 0 <= j < i + 1 && #[trigger] entries[j].0 as usize == k by {
                        if exists|j: int| 0 <= j < i + 1 && #[trigger] entries[j].0 as usize == k {
                            let j = choose|j: int| 0 <= j < i + 1 && #[trigger] entries[j].0 as usize == k;
                            if j < i {
                                assert(before.contains(k));
                            }
                        }
                        if before.contains(k) {
                            let j = choose|j: int| 0 <= j < i && #[trigger] entries[j].0 as usize == k;
                        }
                        if k == key as usize {
                            assert(entries[i as int].0 as usize == k);
                        }
                    }
                }
                i = i + 1;
            }
            ids
        },
    }
}

/// The text of a label, if any.
pub open spec fn label_view(label: Option<String>) -> Option<Seq<char>> {
    match label {
        Some(s) => Some(s@),
        None => None,
    }
}

/// The keys of a label list increase strictly.
pub open spec fn list_keys_increase(s: Seq<(usize, Option<String>)>) -> bool {
    forall|i: int, j: int| 0 <= i < j < s.len() ==> s[i].0 < s[j].0
}

/// In a database whose keys increase, the label of an entry's key is that
/// entry's label.
proof fn lemma_db_label_at(db: Seq<(usize, String)>, j: int)
    requires
        strictly_sorted(db),
        0 <= j < db.len(),
    ensures
        db_label(db, db[j].0) == Some(db[j].1@),
{
    let k = db[j].0;
    assert(in_db(db, k));
    let c = choose|c: int| 0 <= c < db.len() && #[trigger] db[c].0 == k;
    if c < j {
        assert(db[c].0 < db[j].0);
    } else if c > j {
        assert(db[j].0 < db[c].0);
    }
}

/// Whether some entry of `s` has key `k`.
pub open spec fn has_key(s: Seq<(usize, Option<String>)>, k: usize) -> bool {
    exists|i: int| 0 <= i < s.len() && #[trigger] s[i].0 == k
}

/// Pushing an entry keeps the keys there and adds its own.
proof fn lemma_has_key_push(s: Seq<(usize, Option<String>)>, e: (usize, Option<String>))
    ensures
        has_key(s.push(e), e.0),
        forall|k: usize| has_key(s, k) ==> #[trigger] has_key(s.push(e), k),
{
    assert(s.push(e)[s.len() as int] == e);
    assert forall|k: usize| has_key(s, k) implies #[trigger] has_key(s.push(e), k) by {
        let i = choose|i: int| 0 <= i < s.len() && #[trigger] s[i].0 == k;
        assert(s.push(e)[i] == s[i]);
    }
}

/// A key below every key read so far and below the next key is not in
/// the database.
proof fn lemma_not_in_db(db: Seq<(usize, String)>, b: int, k: usize, seen: Seq<(usize, Option<String>)>)
    requires
        strictly_sorted(db),
        0 <= b <= db.len(),
        forall|y: int| 0 <= y < b ==> has_key(seen, #[trigger] db[y].0),
        forall|i: int| 0 <= i < seen.len() ==> #[trigger] seen[i].0 < k,
        b < db.len() ==> k < db[b].0,
    ensures
        !in_db(db, k),
{
    if in_db(db, k) {
        let c = choose|c: int| 0 <= c < db.len() && #[trigger] db[c].0 == k;
        if c < b {
            assert(has_key(seen, db[c].0));
            let i = choose|i: int| 0 <= i < seen.len() && #[trigger] seen[i].0 == db[c].0;
            assert(seen[i].0 < k);
        } else if c > b {
            assert(db[b].0 < db[c].0);
        }
    }
}

/// Whether `k` is a key of one of the first `b` entries of `db`.
pub open spec fn in_db_prefix(db: Seq<(usize, String)>, b: int, k: usize) -> bool {
    exists|j: int| 0 <= j < b && #[trigger] db[j].0 == k
}

/// Whether `k` is one of the first `a` ids of `base`.
pub open spec fn in_base_prefix(base: Seq<usize>, a: int, k: usize) -> bool {
    exists|x: int| 0 <= x < a && #[trigger] base[x] == k
}

/// Merges the increasing plot ids `base` with the entries of the
/// increasing database `db`: each id of either once, in increasing order,
/// with the database's label where it has one.
#[verifier::rlimit(60)]
pub fn merge_ids(base: &Vec<usize>, db: &Vec<(usize, String)>) -> (merged: Vec<(usize, Option<String>)>)
    requires
        keys_increase(base@),
        strictly_sorted(db@),
    ensures
        list_keys_increase(merged@),
        forall|i: int| 0 <= i < merged@.len() ==> {
            &&& (base@.contains(#[trigger] merged@[i].0) || in_db(db@, merged@[i].0))
            &&& label_view(merged@[i].1) == db_label(db@, merged@[i].0)
        },
        forall|k: usize| (base@.contains(k) || in_db(db@, k)) ==> has_key(merged@, k),
{
    let mut merged: Vec<(usize, Option<String>)> = Vec::new();
    let mut a: usize = 0;
    let mut b: usize = 0;
    while a < base.len() || b < db.len()
        invariant
            a <= base@.len(),
            b <= db@.len(),
            keys_increase(base@),
            strictly_sorted(db@),
            list_keys_increase(merged@),
            forall|i: int| 0 <= i < merged@.len() ==> {
                &&& (in_base_prefix(base@, a as int, #[trigger] merged@[i].0) || in_db_prefix(db@, b as int, merged@[i].0))
                &&& label_view(merged@[i].1) == db_label(db@, merged@[i].0)
            },
            forall|x: int| 0 <= x < a ==> has_key(merged@, #[trigger] base@[x]),
            forall|y: int| 0 <= y < b ==> has_key(merged@, #[trigger] db@[y].0),
            forall|i: int| 0 <= i < merged@.len() ==> a < base@.len() ==> #[trigger] merged@[i].0 < base@[a as int],
            forall|i: int| 0 <= i < merged@.len() ==> b < db@.len() ==> #[trigger] merged@[i].0 < db@[b as int].0,
        decreases base@.len() - a + db@.len() - b,
    {
        let ghost before = merged@;
        let ghost a0 = a as int;
        let ghost b0 = b as int;
        let take_base = a < base.len() && (b >= db.len() || base[a] <= db[b].0);
        let k: usize;
        if take_base {
            k = base[a];
            if b < db.len() && db[b].0 == k {
                proof {
                    lemma_db_label_at(db@, b as int);
                }
                merged.push((k, Some(db[b].1.clone())));
                b = b + 1;
            } else {
                proof {
                    lemma_not_in_db(db@, b as int, k, before);
                }
                merged.push((k, None));
            }
            a = a + 1;
        } else {
            k = db[b].0;
            proof {
                lemma_db_label_at(db@, b as int);
            }
            merged.push((k, Some(db[b].1.clone())));
            b = b + 1;
        }
        proof {
            lemma_has_key_push(before, merged@.last());
            assert(merged@ == before.push(merged@.last()));
            assert(merged@.last().0 == k);
            // The new key is above every key before it and below the next ones.
            assert forall|i: int| 0 <= i < before.len() implies #[trigger] before[i].0 < k by {
                if a0 < base@.len() {
                    assert(before[i].0 < base@[a0]);
                }
                if b0 < db@.len() {
                    assert(before[i].0 < db@[b0].0);
                }
            }
            assert forall|i: int| 0 <= i < merged@.len() implies (in_base_prefix(base@, a as int, #[trigger] merged@[i].0) || in_db_prefix(db@, b as int, merged@[i].0)) by {
                if i < before.len() {
                    assert(merged@[i] == before[i]);
                    if in_base_prefix(base@, a0, before[i].0) {
                        let x = choose|x: int| 0 <= x < a0 && #[trigger] base@[x] == before[i].0;
                    } else {
                        let y = choose|y: int| 0 <= y < b0 && #[trigger] db@[y].0 == before[i].0;
                    }
                } else if a > a0 {
                    assert(base@[a0] == k);
                } else {
                    assert(db@[b0].0 == k);
                }
            }
            assert forall|x: int| 0 <= x < a implies has_key(merged@, #[trigger] base@[x]) by {
                if x == a0 && a > a0 {
                    assert(base@[x] == k);
                }
            }
            assert forall|y: int| 0 <= y < b implies has_key(merged@, #[trigger] db@[y].0) by {
                if y == b0 && b > b0 {
                    assert(db@[y].0 == k);
                }
            }
            assert forall|i: int| 0 <= i < merged@.len() && a < base@.len() implies #[trigger] merged@[i].0 < base@[a as int] by {
                if a > a0 {
                    assert(base@[a0] < base@[a as int]);
                } else {
                    assert(k < base@[a0]);
                }
                if i < before.len() {
                    assert(merged@[i] == before[i]);
                }
            }
            assert forall|i: int| 0 <= i < merged@.len() && b < db@.len() implies #[trigger] merged@[i].0 < db@[b as int].0 by {
                if b > b0 {
                    assert(db@[b0].0 < db@[b as int].0);
                } else {
                    assert(k < db@[b0].0);
                }
                if i < before.len() {
                    assert(merged@[i] == before[i]);
                }
            }
        }
    }
    proof {
        assert forall|i: int| 0 <= i < merged@.len() implies (base@.contains(#[trigger] merged@[i].0) || in_db(db@, merged@[i].0)) by {
            if in_base_prefix(base@, a as int, merged@[i].0) {
                let x = choose|x: int| 0 <= x < a && #[trigger] base@[x] == merged@[i].0;
            } else {
                let y = choose|y: int| 0 <= y < b && #[trigger] db@[y].0 == merged@[i].0;
            }
        }
        assert forall|k: usize| (base@.contains(k) || in_db(db@, k)) implies has_key(merged@, k) by {
            if base@.contains(k) {
                let x = choose|x: int| 0 <= x < base@.len() && base@[x] == k;
                assert(has_key(merged@, base@[x]));
            } else {
                let y = choose|y: int| 0 <= y < db@.len() && #[trigger] db@[y].0 == k;
                assert(has_key(merged@, db@[y].0));
            }
        }
    }
    merged
}

/// Whether a raw plot page lists plot `k` with label `label` under the
/// filter `filter`: an empty filter lists everything; else the plot is
/// listed when its label, lower-cased, holds the lower-cased filter, or
/// when the filter reads as a number that stands in the decimal id.
pub open spec fn shown(filter: Seq<char>, k: usize, label: Option<Seq<char>>) -> bool {
    ||| filter.len() == 0
    ||| (label matches Some(l) && contains_text(lowercased(l), lowercased(filter)))
    ||| (reads_as_usize(filter) && contains_text(decimal(k as nat), filter))
}

/// Whether plot `k` with `label` is listed under the filter (see `shown`).
fn is_shown(
    filter: &str,
    filter_chars: &Vec<char>,
    filter_lower: &Vec<char>,
    is_number: bool,
    k: usize,
    label: &Option<String>,
) -> (res: bool)
    requires
        filter_chars@ == filter@,
        filter_lower@ == lowercased(filter@),
        is_number == reads_as_usize(filter@),
    ensures
        res == shown(filter@, k, label_view(*label)),
{
    if filter_chars.len() == 0 {
        return true;
    }
    let label_matches = match label {
        Some(l) => {
            let lower = to_lowercase(l.as_str());
            contains_chars(&chars_of(lower.as_str()), filter_lower)
        },
        None => false,
    };
    if label_matches {
        return true;
    }
    if is_number {
        contains_chars(&decimal_chars(k), filter_chars)
    } else {
        false
    }
}

/// Whether `list` has an entry with the key and label of `e`.
pub open spec fn has_listed(list: Seq<(usize, Option<String>)>, e: (usize, Option<String>)) -> bool {
    exists|j: int| 0 <= j < list.len() && #[trigger] list[j].0 == e.0 && label_view(list[j].1) == label_view(e.1)
}

/// A copy of a label.
fn copy_label(label: &Option<String>) -> (copy: Option<String>)
    ensures
        label_view(copy) == label_view(*label),
{
    match label {
        Some(s) => Some(s.clone()),
        None => None,
    }
}

/// Keeps the entries of `list` that the filter lists, in order.
fn retain_shown(list: &Vec<(usize, Option<String>)>, filter: &str) -> (kept: Vec<(usize, Option<String>)>)
    requires
        list_keys_increase(list@),
    ensures
        list_keys_increase(kept@),
        forall|i: int| 0 <= i < kept@.len() ==> {
            &&& has_listed(list@, #[trigger] kept@[i])
            &&& shown(filter@, kept@[i].0, label_view(kept@[i].1))
        },
        forall|j: int| 0 <= j < list@.len() && shown(filter@, list@[j].0, label_view(list@[j].1))
            ==> has_key(kept@, #[trigger] list@[j].0),
{
    let filter_chars = chars_of(filter);
    let filter_lower = chars_of(to_lowercase(filter).as_str());
    let is_number = is_usize_number(&filter_chars);
    let mut kept: Vec<(usize, Option<String>)> = Vec::new();
    let mut i: usize = 0;
    while i < list.len()
        invariant
            i <= list@.len(),
            list_keys_increase(list@),
            list_keys_increase(kept@),
            filter_chars@ == filter@,
            filter_lower@ == lowercased(filter@),
            is_number == reads_as_usize(filter@),
            forall|x: int| 0 <= x < kept@.len() ==> {
                &&& has_listed(list@, #[trigger] kept@[x])
                &&& shown(filter@, kept@[x].0, label_view(kept@[x].1))
            },
            forall|x: int| 0 <= x < kept@.len() && i < list@.len() ==> #[trigger] kept@[x].0 < list@[i as int].0,
            forall|j: int| 0 <= j < i && shown(filter@, list@[j].0, label_view(list@[j].1)) ==> has_key(kept@, #[trigger] list@[j].0),
        decreases list@.len() - i,
    {
        let ghost before = kept@;
        if is_shown(filter, &filter_chars, &filter_lower, is_number, list[i].0, &list[i].1) {
            let e = (list[i].0, copy_label(&list[i].1));
            kept.push(e);
            proof {
                lemma_has_key_push(before, e);
                assert(has_listed(list@, e));
                assert forall|x: int| 0 <= x < kept@.len() implies {
                    &&& has_listed(list@, #[trigger] kept@[x])
                    &&& shown(filter@, kept@[x].0, label_view(kept@[x].1))
                } by {
                    if x < before.len() {
                        assert(kept@[x] == before[x]);
                    }
                }
            }
        }
        proof {
            assert forall|x: int| 0 <= x < kept@.len() && i + 1 < list@.len() implies #[trigger] kept@[x].0 < list@[i + 1].0 by {
                assert(list@[i as int].0 < list@[i + 1].0);
                if x < before.len() {
                    assert(kept@[x] == before[x]);
                }
            }
        }
        i = i + 1;
    }
    kept
}

/// The labels of the database that goes with the kind of `plots`.
pub open spec fn db_for(plots: PlotType, db: RawPlotDb) -> Seq<(usize, String)> {
    match plots {
        PlotType::Boolean(_) => db.booleans@,
        PlotType::Int(_) => db.integers@,
        PlotType::Float(_) => db.floats@,
    }
}

/// What a raw plot page lists: each plot id of the plots or of the
/// database once, in increasing order, with its database label, where the
/// filter lists it (see `shown`); and every such id.
pub open spec fn is_label_list(
    list: Seq<(usize, Option<String>)>,
    plots: PlotType,
    db: Seq<(usize, String)>,
    filter: Seq<char>,
) -> bool {
    &&& list_keys_increase(list)
    &&& forall|i: int| 0 <= i < list.len() ==> {
        &&& (in_base(plots, #[trigger] list[i].0) || in_db(db, list[i].0))
        &&& label_view(list[i].1) == db_label(db, list[i].0)
        &&& shown(filter, list[i].0, label_view(list[i].1))
    }
    &&& forall|k: usize| (in_base(plots, k) || in_db(db, k)) && shown(filter, k, db_label(db, k))
        ==> has_key(list, k)
}

/// A sorted copy of a database with distinct keys labels the keys as the
/// database does.
proof fn lemma_sorted_db_labels(sorted: Seq<(usize, String)>, db: Seq<(usize, String)>, k: usize)
    requires
        strictly_sorted(sorted),
        keys_distinct(db),
        same_entries(sorted, db),
    ensures
        in_db(sorted, k) == in_db(db, k),
        db_label(sorted, k) == db_label(db, k),
{
    if in_db(sorted, k) {
        let i = choose|i: int| 0 <= i < sorted.len() && #[trigger] sorted[i].0 == k;
        assert(has_entry(db, sorted[i]));
        let j = choose|j: int| 0 <= j < db.len() && #[trigger] db[j].0 == sorted[i].0 && db[j].1@ == sorted[i].1@;
        assert(in_db(db, k));
        let ci = choose|c: int| 0 <= c < sorted.len() && #[trigger] sorted[c].0 == k;
        let cj = choose|c: int| 0 <= c < db.len() && #[trigger] db[c].0 == k;
        if ci < i {
            assert(sorted[ci].0 < sorted[i].0);
        } else if ci > i {
            assert(sorted[i].0 < sorted[ci].0);
        }
        if cj != j {
            assert(db[cj].0 != db[j].0);
        }
    }
    if in_db(db, k) {
        let j = choose|j: int| 0 <= j < db.len() && #[trigger] db[j].0 == k;
        assert(has_entry(sorted, db[j]));
        let i = choose|i: int| 0 <= i < sorted.len() && #[trigger] sorted[i].0 == db[j].0 && sorted[i].1@ == db[j].1@;
        assert(in_db(sorted, k));
    }
}

/// The plots a raw plot page lists (see `is_label_list`).
pub fn update_label_list(plots: &PlotType, db: &RawPlotDb, filter: &str) -> (list: Vec<(usize, Option<String>)>)
    requires
        keys_distinct(db_for(*plots, *db)),
    ensures
        is_label_list(list@, *plots, db_for(*plots, *db), filter@),
{
    let entries = match plots {
        PlotType::Boolean(_) => &db.booleans,
        PlotType::Int(_) => &db.integers,
        PlotType::Float(_) => &db.floats,
    };
    let sorted = sorted_db(entries);
    let base = base_ids(plots);
    let merged = merge_ids(&base, &sorted);
    let list = retain_shown(&merged, filter);
    proof {
        let d = db_for(*plots, *db);
        assert forall|k: usize| #[trigger] in_db(sorted@, k) == in_db(d, k) && db_label(sorted@, k) == db_label(d, k) by {
            lemma_sorted_db_labels(sorted@, d, k);
        }
        assert forall|i: int| 0 <= i < list@.len() implies {
            &&& (in_base(*plots, #[trigger] list@[i].0) || in_db(d, list@[i].0))
            &&& label_view(list@[i].1) == db_label(d, list@[i].0)
            &&& shown(filter@, list@[i].0, label_view(list@[i].1))
        } by {
            assert(has_listed(merged@, list@[i]));
            let j = choose|j: int| 0 <= j < merged@.len() && #[trigger] merged@[j].0 == list@[i].0 && label_view(merged@[j].1) == label_view(list@[i].1);
            assert(base@.contains(merged@[j].0) || in_db(sorted@, merged@[j].0));
            assert(in_db(sorted@, list@[i].0) == in_db(d, list@[i].0));
        }
        assert forall|k: usize| (in_base(*plots, k) || in_db(d, k)) && shown(filter@, k, db_label(d, k)) implies has_key(list@, k) by {
            assert(in_db(sorted@, k) == in_db(d, k));
            assert(base@.contains(k) || in_db(sorted@, k));
            assert(has_key(merged@, k));
            let j = choose|j: int| 0 <= j < merged@.len() && #[trigger] merged@[j].0 == k;
            assert(label_view(merged@[j].1) == db_label(sorted@, k));
        }
    }
    list
}

/// A database entry as plain values.
pub open spec fn entry_view(e: (usize, String)) -> (usize, Seq<char>) {
    (e.0, e.1@)
}

/// Whether the filter `filter` keeps the database entry `e`: its label,
/// lower-cased, holds the lower-cased filter, or its decimal id holds the
/// filter.
pub open spec fn entry_matches(filter: Seq<char>, e: (usize, Seq<char>)) -> bool {
    contains_text(lowercased(e.1), lowercased(filter)) || contains_text(decimal(e.0 as nat), filter)
}

/// The entries of `db` that the filter keeps, in order.
pub fn filter_db(db: &Vec<(usize, String)>, filter: &str) -> (kept: Vec<(usize, String)>)
    ensures
        kept@.map_values(|e: (usize, String)| entry_view(e)) == db@.map_values(|e: (usize, String)| entry_view(e)).filter(
            |e: (usize, Seq<char>)| entry_matches(filter@, e),
        ),
{
    let filter_chars = chars_of(filter);
    let filter_lower = chars_of(to_lowercase(filter).as_str());
    let ghost pred = |e: (usize, Seq<char>)| entry_matches(filter@, e);
    let ghost view = |e: (usize, String)| entry_view(e);
    let mut kept: Vec<(usize, String)> = Vec::new();
    let mut i: usize = 0;
    while i < db.len()
        invariant
            i <= db@.len(),
            filter_chars@ == filter@,
            filter_lower@ == lowercased(filter@),
            pred == (|e: (usize, Seq<char>)| entry_matches(filter@, e)),
            view == (|e: (usize, String)| entry_view(e)),
            kept@.map_values(view) == db@.take(i as int).map_values(view).filter(pred),
        decreases db@.len() - i,
    {
        let lower = to_lowercase(db[i].1.as_str());
        let matches = contains_chars(&chars_of(lower.as_str()), &filter_lower) || contains_chars(
            &decimal_chars(db[i].0),
            &filter_chars,
        );
        let ghost before = kept@;
        proof {
            assert(db@.take(i + 1).map_values(view) =~= db@.take(i as int).map_values(view).push(entry_view(db@[i as int])));
            db@.take(i as int).map_values(view).lemma_filter_push(entry_view(db@[i as int]), pred);
        }
        if matches {
            let e = (db[i].0, db[i].1.clone());
            kept.push(e);
            proof {
                assert(kept@.map_values(view) =~= before.map_values(view).push(entry_view(db@[i as int])));
            }
        }
        i = i + 1;
    }
    proof {
        assert(db@.take(i as int) =~= db@);
    }
    kept
}

} // verus!
