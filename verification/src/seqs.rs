//! Searching and counting in sequences.

use vstd::prelude::*;

verus! {

/// Position of the first element of `s` that satisfies `p`, or the length of
/// `s` when none does.
pub open spec fn first_match<T>(s: Seq<T>, p: spec_fn(T) -> bool) -> int
    decreases s.len(),
{
    if s.len() == 0 {
        0
    } else if p(s[0]) {
        0
    } else {
        1 + first_match(s.subrange(1, s.len() as int), p)
    }
}

/// `first_match` returns a position within the sequence (or its length), the
/// element there satisfies `p`, and no earlier element does.
pub proof fn lemma_first_match<T>(s: Seq<T>, p: spec_fn(T) -> bool)
    ensures
        0 <= first_match(s, p) <= s.len(),
        first_match(s, p) < s.len() ==> p(s[first_match(s, p)]),
        forall|i: int| 0 <= i < first_match(s, p) ==> !p(#[trigger] s[i]),
    decreases s.len(),
{
    if s.len() > 0 && !p(s[0]) {
        let rest = s.subrange(1, s.len() as int);
        lemma_first_match(rest, p);
        assert forall|i: int| 0 <= i < first_match(s, p) implies !p(#[trigger] s[i]) by {
            if i > 0 {
                assert(rest[i - 1] == s[i]);
            }
        }
    }
}

/// A position whose element satisfies `p`, with no such element before it, is
/// the one that `first_match` returns.
pub proof fn lemma_first_match_is<T>(s: Seq<T>, p: spec_fn(T) -> bool, at: int)
    requires
        0 <= at <= s.len(),
        at < s.len() ==> p(s[at]),
        forall|i: int| 0 <= i < at ==> !p(#[trigger] s[i]),
    ensures
        first_match(s, p) == at,
{
    lemma_first_match(s, p);
    let found = first_match(s, p);
    if found < at {
        assert(p(s[found]));
    }
}

/// Number of elements of `s` that satisfy `p`.
pub open spec fn count_where<T>(s: Seq<T>, p: spec_fn(T) -> bool) -> nat
    decreases s.len(),
{
    if s.len() == 0 {
        0
    } else {
        count_where(s.drop_last(), p) + if p(s.last()) {
            1nat
        } else {
            0nat
        }
    }
}

/// Counting over one more element.
pub proof fn lemma_count_where_step<T>(s: Seq<T>, p: spec_fn(T) -> bool, i: int)
    requires
        0 <= i < s.len(),
    ensures
        count_where(s.take(i + 1), p) == count_where(s.take(i), p) + if p(s[i]) {
            1nat
        } else {
            0nat
        },
{
    assert(s.take(i + 1).drop_last() =~= s.take(i));
}

/// Where no element satisfies `p`, none is counted.
pub proof fn lemma_count_where_none<T>(s: Seq<T>, p: spec_fn(T) -> bool)
    requires
        forall|i: int| 0 <= i < s.len() ==> !p(#[trigger] s[i]),
    ensures
        count_where(s, p) == 0,
    decreases s.len(),
{
    if s.len() > 0 {
        assert forall|i: int| 0 <= i < s.drop_last().len() implies !p(
            #[trigger] s.drop_last()[i],
        ) by {
            assert(s.drop_last()[i] == s[i]);
        }
        lemma_count_where_none(s.drop_last(), p);
    }
}

/// Where each element of `b` that satisfies `q` stands at a position at
/// which `a` has an element that satisfies `p`, `q` counts no more in `b`
/// than `p` counts in `a`; and it counts less where, at the position `at`,
/// only the element of `a` satisfies its condition.
pub proof fn lemma_count_where_fewer<A, B>(
    a: Seq<A>,
    p: spec_fn(A) -> bool,
    b: Seq<B>,
    q: spec_fn(B) -> bool,
    at: int,
)
    requires
        a.len() == b.len(),
        forall|i: int| 0 <= i < a.len() && q(#[trigger] b[i]) ==> p(a[i]),
    ensures
        count_where(b, q) <= count_where(a, p),
        0 <= at < a.len() && p(a[at]) && !q(b[at]) ==> count_where(b, q) < count_where(a, p),
    decreases a.len(),
{
    if a.len() > 0 {
        let a0 = a.drop_last();
        let b0 = b.drop_last();
        assert forall|i: int| 0 <= i < a0.len() && q(#[trigger] b0[i]) implies p(a0[i]) by {
            assert(b0[i] == b[i]);
            assert(a0[i] == a[i]);
        }
        lemma_count_where_fewer(a0, p, b0, q, at);
        assert(q(b[b.len() - 1]) ==> p(a[a.len() - 1]));
        if 0 <= at < a0.len() {
            assert(a0[at] == a[at]);
            assert(b0[at] == b[at]);
        }
    }
}

/// The rows whose key is `k`.
pub open spec fn keyed<T, K>(key: spec_fn(T) -> K, k: K) -> spec_fn(T) -> bool {
    |row: T| key(row) == k
}

/// The rows whose key satisfies `keep`.
pub open spec fn key_in<T, K>(key: spec_fn(T) -> K, keep: spec_fn(K) -> bool) -> spec_fn(
    T,
) -> bool {
    |row: T| keep(key(row))
}

/// A list of rows read as a map: each key that occurs stands for the value of
/// the first row that has it.
pub open spec fn table<T, K, V>(rows: Seq<T>, key: spec_fn(T) -> K, val: spec_fn(T) -> V) -> Map<
    K,
    V,
> {
    Map::new(
        |k: K| first_match(rows, keyed(key, k)) < rows.len(),
        |k: K| val(rows[first_match(rows, keyed(key, k))]),
    )
}

/// Replacing the first row of a key by a row of the same key replaces the
/// value of that key.
pub proof fn lemma_table_update<T, K, V>(
    rows: Seq<T>,
    key: spec_fn(T) -> K,
    val: spec_fn(T) -> V,
    at: int,
    row: T,
)
    requires
        0 <= at < rows.len(),
        at == first_match(rows, keyed(key, key(row))),
    ensures
        table(rows.update(at, row), key, val) == table(rows, key, val).insert(key(row), val(row)),
{
    let after = rows.update(at, row);
    let before_map = table(rows, key, val);
    let after_map = table(after, key, val);
    let expected = before_map.insert(key(row), val(row));
    lemma_first_match(rows, keyed(key, key(row)));
    assert(key(rows[at]) == key(row));
    assert forall|k: K|
        #[trigger] after_map.dom().contains(k) == expected.dom().contains(k) && (
        after_map.dom().contains(k) ==> after_map[k] == expected[k]) by {
        let p = keyed(key, k);
        lemma_first_match(rows, p);
        let found = first_match(rows, p);
        assert forall|i: int| 0 <= i < found implies !p(#[trigger] after[i]) by {
            assert(!p(rows[i]));
        }
        lemma_first_match_is(after, p, found);
    }
    assert(after_map =~= expected);
}

/// Appending a row whose key does not occur yet adds that key with the
/// row's value.
pub proof fn lemma_table_push<T, K, V>(
    rows: Seq<T>,
    key: spec_fn(T) -> K,
    val: spec_fn(T) -> V,
    row: T,
)
    requires
        first_match(rows, keyed(key, key(row))) == rows.len(),
    ensures
        table(rows.push(row), key, val) == table(rows, key, val).insert(key(row), val(row)),
{
    let after = rows.push(row);
    let before_map = table(rows, key, val);
    let after_map = table(after, key, val);
    let expected = before_map.insert(key(row), val(row));
    assert forall|k: K|
        #[trigger] after_map.dom().contains(k) == expected.dom().contains(k) && (
        after_map.dom().contains(k) ==> after_map[k] == expected[k]) by {
        let p = keyed(key, k);
        lemma_first_match(rows, p);
        let found = first_match(rows, p);
        if found < rows.len() || k == key(row) {
            assert forall|i: int| 0 <= i < found implies !p(#[trigger] after[i]) by {
                assert(!p(rows[i]));
            }
            lemma_first_match_is(after, p, found);
        } else {
            assert forall|i: int| 0 <= i < after.len() implies !p(#[trigger] after[i]) by {
                if i < rows.len() {
                    assert(!p(rows[i]));
                }
            }
            lemma_first_match_is(after, p, after.len() as int);
        }
    }
    assert(after_map =~= expected);
}

/// Among the rows that a filter keeps, the first row that satisfies `p` is
/// the first such row of the whole list, when the filter keeps every row that
/// satisfies `p`.
pub proof fn lemma_filter_first_match<T>(rows: Seq<T>, p: spec_fn(T) -> bool, keep: spec_fn(
    T,
) -> bool)
    requires
        forall|row: T| #[trigger] p(row) ==> keep(row),
    ensures
        first_match(rows, p) < rows.len() <==> first_match(rows.filter(keep), p)
            < rows.filter(keep).len(),
        first_match(rows, p) < rows.len() ==> rows[first_match(rows, p)] == rows.filter(
            keep,
        )[first_match(rows.filter(keep), p)],
    decreases rows.len(),
{
    reveal(Seq::filter);
    let kept = rows.filter(keep);
    lemma_first_match(rows, p);
    lemma_first_match(kept, p);
    if rows.len() > 0 {
        let front = rows.drop_last();
        let kept_front = front.filter(keep);
        lemma_filter_first_match(front, p, keep);
        lemma_first_match(front, p);
        lemma_first_match(kept_front, p);
        let a = first_match(front, p);
        let b = first_match(kept_front, p);
        if a < front.len() {
            assert forall|i: int| 0 <= i < a implies !p(#[trigger] rows[i]) by {
                assert(!p(front[i]));
            }
            assert(rows[a] == front[a]);
            lemma_first_match_is(rows, p, a);
            assert forall|i: int| 0 <= i < b implies !p(#[trigger] kept[i]) by {
                assert(kept[i] == kept_front[i]);
                assert(!p(kept_front[i]));
            }
            assert(kept[b] == kept_front[b]);
            lemma_first_match_is(kept, p, b);
        } else {
            assert forall|i: int| 0 <= i < front.len() implies !p(#[trigger] rows[i]) by {
                assert(!p(front[i]));
            }
            assert forall|i: int| 0 <= i < kept_front.len() implies !p(#[trigger] kept[i]) by {
                assert(kept[i] == kept_front[i]);
                assert(!p(kept_front[i]));
            }
            if p(rows.last()) {
                lemma_first_match_is(rows, p, rows.len() - 1);
                assert(kept == kept_front.push(rows.last()));
                lemma_first_match_is(kept, p, kept.len() - 1);
            } else {
                lemma_first_match_is(rows, p, rows.len() as int);
                assert forall|i: int| 0 <= i < kept.len() implies !p(#[trigger] kept[i]) by {
                    if i >= kept_front.len() {
                        assert(kept[i] == rows.last());
                    }
                }
                lemma_first_match_is(kept, p, kept.len() as int);
            }
        }
    }
}

/// Every row that a filter keeps satisfies the filter, so none of the kept
/// rows satisfies a condition `p` that excludes the filter.
pub proof fn lemma_filter_drops<T>(rows: Seq<T>, p: spec_fn(T) -> bool, keep: spec_fn(T) -> bool)
    requires
        forall|row: T| #[trigger] p(row) ==> !keep(row),
    ensures
        first_match(rows.filter(keep), p) == rows.filter(keep).len(),
{
    let kept = rows.filter(keep);
    assert forall|i: int| 0 <= i < kept.len() implies !p(#[trigger] kept[i]) by {
        rows.lemma_filter_pred(keep, i);
    }
    lemma_first_match_is(kept, p, kept.len() as int);
}

/// Filtering the rows by their keys restricts the map to the keys kept.
pub proof fn lemma_table_filter<T, K, V>(
    rows: Seq<T>,
    key: spec_fn(T) -> K,
    val: spec_fn(T) -> V,
    keep: spec_fn(K) -> bool,
)
    ensures
        table(rows.filter(key_in(key, keep)), key, val) == table(rows, key, val).restrict(
            Set::new(keep),
        ),
{
    let kept = rows.filter(key_in(key, keep));
    let after_map = table(kept, key, val);
    let expected = table(rows, key, val).restrict(Set::new(keep));
    assert forall|k: K|
        #[trigger] after_map.dom().contains(k) == expected.dom().contains(k) && (
        after_map.dom().contains(k) ==> after_map[k] == expected[k]) by {
        if keep(k) {
            lemma_filter_first_match(rows, keyed(key, k), key_in(key, keep));
        } else {
            lemma_filter_drops(rows, keyed(key, k), key_in(key, keep));
        }
    }
    assert(after_map =~= expected);
}

/// The map `m` after the entries of `entries` were written to it one by one,
/// each replacing what its key stood for.
pub open spec fn insert_all<K, V>(m: Map<K, V>, entries: Seq<(K, V)>) -> Map<K, V>
    decreases entries.len(),
{
    if entries.len() == 0 {
        m
    } else {
        insert_all(m, entries.drop_last()).insert(entries.last().0, entries.last().1)
    }
}

/// Whether some entry of `entries` has the key `k`.
pub open spec fn writes_key<K, V>(entries: Seq<(K, V)>, k: K) -> bool {
    exists|i: int| 0 <= i < entries.len() && (#[trigger] entries[i]).0 == k
}

/// Writing one more entry after the others.
pub proof fn lemma_insert_all_push<K, V>(m: Map<K, V>, entries: Seq<(K, V)>, entry: (K, V))
    ensures
        insert_all(m, entries.push(entry)) == insert_all(m, entries).insert(entry.0, entry.1),
{
    assert(entries.push(entry).drop_last() =~= entries);
}

/// An entry written before a batch survives the batch exactly when the batch
/// does not write its key.
pub proof fn lemma_insert_all_absorbs<K, V>(m: Map<K, V>, k: K, v: V, entries: Seq<(K, V)>)
    ensures
        insert_all(m.insert(k, v), entries) == if writes_key(entries, k) {
            insert_all(m, entries)
        } else {
            insert_all(m, entries).insert(k, v)
        },
    decreases entries.len(),
{
    if entries.len() > 0 {
        let front = entries.drop_last();
        let last = entries.last();
        lemma_insert_all_absorbs(m, k, v, front);
        if writes_key(front, k) {
            let i = choose|i: int| 0 <= i < front.len() && (#[trigger] front[i]).0 == k;
            assert(entries[i].0 == k);
        } else if last.0 == k {
            assert(entries[entries.len() - 1].0 == k);
            assert(insert_all(m, front).insert(k, v).insert(last.0, last.1) =~= insert_all(
                m,
                front,
            ).insert(last.0, last.1));
        } else {
            assert forall|i: int| 0 <= i < entries.len() implies (#[trigger] entries[i]).0
                != k by {
                if i < front.len() {
                    assert(front[i].0 != k);
                }
            }
            assert(insert_all(m, front).insert(k, v).insert(last.0, last.1) =~= insert_all(
                m,
                front,
            ).insert(last.0, last.1).insert(k, v));
        }
    } else {
        assert(!writes_key(entries, k));
    }
}

/// Writing a batch a second time changes nothing.
pub proof fn lemma_insert_all_twice<K, V>(m: Map<K, V>, entries: Seq<(K, V)>)
    ensures
        insert_all(insert_all(m, entries), entries) == insert_all(m, entries),
    decreases entries.len(),
{
    if entries.len() > 0 {
        let front = entries.drop_last();
        let last = entries.last();
        let once = insert_all(m, front);
        lemma_insert_all_twice(m, front);
        lemma_insert_all_absorbs(once, last.0, last.1, front);
        assert(once.insert(last.0, last.1).insert(last.0, last.1) =~= once.insert(
            last.0,
            last.1,
        ));
    }
}

/// The key of an entry.
pub open spec fn entry_key<K, V>() -> spec_fn((K, V)) -> K {
    |entry: (K, V)| entry.0
}

/// The value of an entry.
pub open spec fn entry_value<K, V>() -> spec_fn((K, V)) -> V {
    |entry: (K, V)| entry.1
}

/// A row as an entry: its key and its value.
pub open spec fn entry_of<T, K, V>(key: spec_fn(T) -> K, val: spec_fn(T) -> V) -> spec_fn(T) -> (
    K,
    V,
) {
    |row: T| (key(row), val(row))
}

/// The position of the first entry with the key `k`, or the number of
/// entries where none has it.
pub open spec fn place<K, V>(rows: Seq<(K, V)>, k: K) -> int {
    first_match(rows, keyed(entry_key::<K, V>(), k))
}

/// The entries after `entry` was written: it stands in place of the first
/// entry with its key or, where no entry has its key, at the end.
pub open spec fn put<K, V>(rows: Seq<(K, V)>, entry: (K, V)) -> Seq<(K, V)> {
    if place(rows, entry.0) < rows.len() {
        rows.update(place(rows, entry.0), entry)
    } else {
        rows.push(entry)
    }
}

/// The entries after each of `entries` was written, one after the other.
pub open spec fn put_all<K, V>(rows: Seq<(K, V)>, entries: Seq<(K, V)>) -> Seq<(K, V)>
    decreases entries.len(),
{
    if entries.len() == 0 {
        rows
    } else {
        put(put_all(rows, entries.drop_last()), entries.last())
    }
}

/// A list of entries read as a map, as [`table`] reads rows.
pub open spec fn entries_map<K, V>(rows: Seq<(K, V)>) -> Map<K, V> {
    table(rows, entry_key::<K, V>(), entry_value::<K, V>())
}

/// Rows read as a map are their entries read as a map, and the first row of
/// a key stands where the first entry of that key stands.
pub proof fn lemma_table_of_entries<T, K, V>(
    rows: Seq<T>,
    key: spec_fn(T) -> K,
    val: spec_fn(T) -> V,
)
    ensures
        table(rows, key, val) == entries_map(rows.map_values(entry_of(key, val))),
        forall|k: K| #[trigger]
            place(rows.map_values(entry_of(key, val)), k) == first_match(rows, keyed(key, k)),
{
    let entries = rows.map_values(entry_of(key, val));
    assert forall|k: K| #[trigger] place(entries, k) == first_match(rows, keyed(key, k)) by {
        lemma_first_match(rows, keyed(key, k));
        let at = first_match(rows, keyed(key, k));
        assert forall|i: int| 0 <= i < at implies !keyed(entry_key::<K, V>(), k)(
            #[trigger] entries[i],
        ) by {
            assert(!keyed(key, k)(rows[i]));
        }
        lemma_first_match_is(entries, keyed(entry_key::<K, V>(), k), at);
    }
    let read = table(rows, key, val);
    let listed = entries_map(entries);
    assert forall|k: K| read.dom().contains(k) == listed.dom().contains(k) by {
        assert(place(entries, k) == first_match(rows, keyed(key, k)));
        assert(entries.len() == rows.len());
    }
    assert forall|k: K| read.dom().contains(k) implies read[k] == listed[k] by {
        let at = first_match(rows, keyed(key, k));
        assert(place(entries, k) == at);
        lemma_first_match(rows, keyed(key, k));
        assert(entries[at] == entry_of(key, val)(rows[at]));
        assert(listed[k] == entry_value::<K, V>()(entries[at]));
    }
    assert(read =~= listed);
}

/// Writing an entry to a list of entries writes it to the map that the list
/// stands for.
pub proof fn lemma_put_is_insert<K, V>(rows: Seq<(K, V)>, entry: (K, V))
    ensures
        entries_map(put(rows, entry)) == entries_map(rows).insert(entry.0, entry.1),
{
    lemma_first_match(rows, keyed(entry_key::<K, V>(), entry.0));
    if place(rows, entry.0) < rows.len() {
        lemma_table_update(
            rows,
            entry_key::<K, V>(),
            entry_value::<K, V>(),
            place(rows, entry.0),
            entry,
        );
    } else {
        lemma_table_push(rows, entry_key::<K, V>(), entry_value::<K, V>(), entry);
    }
}

/// Writing entries one after the other to a list of entries writes them
/// to the map that the list stands for.
pub proof fn lemma_put_all_is_insert_all<K, V>(rows: Seq<(K, V)>, entries: Seq<(K, V)>)
    ensures
        entries_map(put_all(rows, entries)) == insert_all(entries_map(rows), entries),
    decreases entries.len(),
{
    if entries.len() > 0 {
        lemma_put_all_is_insert_all(rows, entries.drop_last());
        lemma_put_is_insert(put_all(rows, entries.drop_last()), entries.last());
    }
}

/// Writing one more entry after the others.
pub proof fn lemma_put_all_push<K, V>(rows: Seq<(K, V)>, entries: Seq<(K, V)>, entry: (K, V))
    ensures
        put_all(rows, entries.push(entry)) == put(put_all(rows, entries), entry),
{
    assert(entries.push(entry).drop_last() =~= entries);
}

/// Whether `after` has the keys of `rows`, each where it was, and the
/// values of `rows` but in the first entry of each key.
spec fn differ_in_first_entries<K, V>(rows: Seq<(K, V)>, after: Seq<(K, V)>) -> bool {
    &&& after.len() == rows.len()
    &&& forall|i: int|
        0 <= i < rows.len() ==> (#[trigger] after[i]).0 == rows[i].0 && (i != place(
            rows,
            rows[i].0,
        ) ==> after[i] == rows[i])
}

/// In two lists with the same keys, each at the same position, the first
/// entry of a key stands at the same position.
proof fn lemma_same_keys_same_places<K, V>(rows: Seq<(K, V)>, after: Seq<(K, V)>, k: K)
    requires
        after.len() == rows.len(),
        forall|i: int| 0 <= i < rows.len() ==> (#[trigger] after[i]).0 == rows[i].0,
    ensures
        place(after, k) == place(rows, k),
{
    lemma_first_match(rows, keyed(entry_key::<K, V>(), k));
    let at = place(rows, k);
    assert forall|i: int| 0 <= i < at implies !keyed(entry_key::<K, V>(), k)(
        #[trigger] after[i],
    ) by {
        assert(!keyed(entry_key::<K, V>(), k)(rows[i]));
    }
    if at < rows.len() {
        assert(keyed(entry_key::<K, V>(), k)(rows[at]));
        assert(after[at].0 == rows[at].0);
    }
    lemma_first_match_is(after, keyed(entry_key::<K, V>(), k), at);
}

/// Writing an entry whose key is there changes nothing but the value of
/// the first entry of that key.
proof fn lemma_put_keeps_shape<K, V>(rows: Seq<(K, V)>, after: Seq<(K, V)>, entry: (K, V))
    requires
        differ_in_first_entries(rows, after),
        place(rows, entry.0) < rows.len(),
    ensures
        differ_in_first_entries(rows, put(after, entry)),
{
    lemma_same_keys_same_places(rows, after, entry.0);
    lemma_first_match(rows, keyed(entry_key::<K, V>(), entry.0));
    let at = place(rows, entry.0);
    assert(keyed(entry_key::<K, V>(), entry.0)(rows[at]));
    assert(put(after, entry) == after.update(at, entry));
    assert forall|i: int| 0 <= i < rows.len() implies (#[trigger] put(after, entry)[i]).0
        == rows[i].0 && (i != place(rows, rows[i].0) ==> put(after, entry)[i] == rows[i]) by {
        assert(after[i].0 == rows[i].0);
    }
}

/// Writing entries whose keys are all there changes nothing but the
/// values of the first entries of those keys.
proof fn lemma_put_all_keeps_shape<K, V>(rows: Seq<(K, V)>, entries: Seq<(K, V)>)
    requires
        forall|i: int| 0 <= i < entries.len() ==> place(rows, (#[trigger] entries[i]).0) < rows.len(),
    ensures
        differ_in_first_entries(rows, put_all(rows, entries)),
    decreases entries.len(),
{
    if entries.len() > 0 {
        let front = entries.drop_last();
        assert forall|i: int| 0 <= i < front.len() implies place(rows, (#[trigger] front[i]).0)
            < rows.len() by {
            assert(front[i] == entries[i]);
        }
        lemma_put_all_keeps_shape(rows, front);
        assert(entries.last() == entries[entries.len() - 1]);
        lemma_put_keeps_shape(rows, put_all(rows, front), entries.last());
    }
}

/// Two lists that differ in nothing but the values of the first entries of
/// their keys, and that stand for the same map, are the same list.
proof fn lemma_same_map_same_list<K, V>(rows: Seq<(K, V)>, after: Seq<(K, V)>)
    requires
        differ_in_first_entries(rows, after),
        entries_map(rows) == entries_map(after),
    ensures
        rows == after,
{
    assert forall|i: int| 0 <= i < rows.len() implies rows[i] == after[i] by {
        let k = rows[i].0;
        assert(after[i].0 == k);
        if i == place(rows, k) {
            lemma_same_keys_same_places(rows, after, k);
            assert(entries_map(rows).dom().contains(k));
            assert(entries_map(rows)[k] == rows[i].1);
            assert(entries_map(after)[k] == after[i].1);
        }
    }
    assert(rows =~= after);
}

/// Every key that a batch writes is in the map after the batch.
proof fn lemma_insert_all_holds<K, V>(m: Map<K, V>, entries: Seq<(K, V)>, i: int)
    requires
        0 <= i < entries.len(),
    ensures
        insert_all(m, entries).dom().contains(entries[i].0),
    decreases entries.len(),
{
    if i < entries.len() - 1 {
        lemma_insert_all_holds(m, entries.drop_last(), i);
    }
}

/// Writing the same entries a second time leaves the list as the first time
/// left it: the same entries, each where it was.
pub proof fn lemma_put_all_twice<K, V>(rows: Seq<(K, V)>, entries: Seq<(K, V)>)
    ensures
        put_all(put_all(rows, entries), entries) == put_all(rows, entries),
{
    let once = put_all(rows, entries);
    lemma_put_all_is_insert_all(rows, entries);
    lemma_put_all_is_insert_all(once, entries);
    lemma_insert_all_twice(entries_map(rows), entries);
    assert forall|i: int| 0 <= i < entries.len() implies place(once, (#[trigger] entries[i]).0)
        < once.len() by {
        lemma_insert_all_holds(entries_map(rows), entries, i);
        assert(entries_map(once).dom().contains(entries[i].0));
    }
    lemma_put_all_keeps_shape(once, entries);
    lemma_same_map_same_list(once, put_all(once, entries));
}

/// Writing two batches one after the other is writing them as one batch.
pub proof fn lemma_put_all_add<K, V>(rows: Seq<(K, V)>, first: Seq<(K, V)>, then: Seq<(K, V)>)
    ensures
        put_all(put_all(rows, first), then) == put_all(rows, first + then),
    decreases then.len(),
{
    if then.len() == 0 {
        assert(first + then =~= first);
    } else {
        lemma_put_all_add(rows, first, then.drop_last());
        assert((first + then).drop_last() =~= first + then.drop_last());
        assert((first + then).last() == then.last());
    }
}

/// Whether no two entries have the same key.
pub open spec fn keys_are_distinct<K, V>(rows: Seq<(K, V)>) -> bool {
    forall|i: int, j: int|
        0 <= i < rows.len() && 0 <= j < rows.len() && i != j ==> (#[trigger] rows[i]).0
            != (#[trigger] rows[j]).0
}

/// A list in which no two entries have the same key stays such a list when
/// an entry is written to it.
pub proof fn lemma_put_keeps_keys_distinct<K, V>(rows: Seq<(K, V)>, entry: (K, V))
    requires
        keys_are_distinct(rows),
    ensures
        keys_are_distinct(put(rows, entry)),
{
    lemma_first_match(rows, keyed(entry_key::<K, V>(), entry.0));
    let at = place(rows, entry.0);
    let after = put(rows, entry);
    assert forall|i: int, j: int|
        0 <= i < after.len() && 0 <= j < after.len() && i != j implies (#[trigger] after[i]).0
            != (#[trigger] after[j]).0 by {
        if at < rows.len() {
            assert(keyed(entry_key::<K, V>(), entry.0)(rows[at]));
            assert(after[i].0 == rows[i].0 && after[j].0 == rows[j].0);
        } else {
            if i < rows.len() {
                assert(!keyed(entry_key::<K, V>(), entry.0)(rows[i]));
            }
            if j < rows.len() {
                assert(!keyed(entry_key::<K, V>(), entry.0)(rows[j]));
            }
        }
    }
}

/// A list in which no two entries have the same key stays such a list
/// whatever is written to it: each key has one entry, however often it is
/// written.
pub proof fn lemma_put_all_keeps_keys_distinct<K, V>(rows: Seq<(K, V)>, entries: Seq<(K, V)>)
    requires
        keys_are_distinct(rows),
    ensures
        keys_are_distinct(put_all(rows, entries)),
    decreases entries.len(),
{
    if entries.len() > 0 {
        lemma_put_all_keeps_keys_distinct(rows, entries.drop_last());
        lemma_put_keeps_keys_distinct(put_all(rows, entries.drop_last()), entries.last());
    }
}

/// A list in which no two entries have the same key has as many entries as
/// the map that it stands for has keys.
pub proof fn lemma_distinct_keys_are_counted<K, V>(rows: Seq<(K, V)>)
    requires
        keys_are_distinct(rows),
    ensures
        entries_map(rows).dom().finite(),
        entries_map(rows).dom().len() == rows.len(),
    decreases rows.len(),
{
    if rows.len() == 0 {
        assert(entries_map(rows).dom() =~= Set::<K>::empty());
    } else {
        let front = rows.drop_last();
        let last = rows.last();
        assert forall|i: int, j: int|
            0 <= i < front.len() && 0 <= j < front.len() && i != j implies (#[trigger] front[i]).0
                != (#[trigger] front[j]).0 by {
            assert(front[i] == rows[i] && front[j] == rows[j]);
        }
        lemma_distinct_keys_are_counted(front);
        assert forall|i: int| 0 <= i < front.len() implies !keyed(entry_key::<K, V>(), last.0)(
            #[trigger] front[i],
        ) by {
            assert(front[i] == rows[i]);
            assert(rows[rows.len() - 1] == last);
        }
        lemma_first_match_is(front, keyed(entry_key::<K, V>(), last.0), front.len() as int);
        lemma_table_push(front, entry_key::<K, V>(), entry_value::<K, V>(), last);
        assert(front.push(last) =~= rows);
        assert(entries_map(rows).dom() =~= entries_map(front).dom().insert(last.0));
        assert(!entries_map(front).dom().contains(last.0));
    }
}

} // verus!
