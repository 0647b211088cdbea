//! The manifest's dependency map: an ordered map from import name to
//! specifier, the rule by which new entries are merged into it, and the order
//! in which the merged entries are rendered.

use crate::entries::{manifest_dependency_entry, manifest_entry, Entry, SelectedPackage, SelectedPackageView};
use crate::order::{
    lemma_name_lt_irreflexive, lemma_name_lt_total, lemma_name_lt_transitive, name_less, name_lt,
};
use indexmap::IndexMap;
use vstd::prelude::*;
use vstd::string::*;

verus! {

broadcast use vstd::seq_lib::group_to_multiset_ensures;

/// `indexmap::IndexMap`, a map that keeps its entries in the order in which
/// their keys were first stored. Nothing is known of a value of it but what
/// the functions below say.
#[verifier::external_type_specification]
#[verifier::external_body]
#[verifier::reject_recursive_types(K)]
#[verifier::reject_recursive_types(V)]
#[verifier::reject_recursive_types(S)]
pub struct ExIndexMap<K, V, S>(IndexMap<K, V, S>);

/// The entries of a dependency map, in the order in which the map holds them.
pub uninterp spec fn map_entries(m: IndexMap<String, String>) -> Seq<Entry>;

/// The index of the first entry stored under `key`, or the number of entries
/// where there is none.
pub open spec fn position(entries: Seq<Entry>, key: Seq<char>) -> int
    decreases entries.len(),
{
    if entries.len() == 0 {
        0
    } else if entries[0].0 == key {
        0
    } else {
        1 + position(entries.drop_first(), key)
    }
}

/// The specifier stored under `key`, if there is one.
pub open spec fn lookup(entries: Seq<Entry>, key: Seq<char>) -> Option<Seq<char>> {
    let i = position(entries, key);
    if i < entries.len() {
        Some(entries[i].1)
    } else {
        None
    }
}

/// The entries after `value` was stored under `key`: an entry that `key`
/// already has keeps its place and gets the new value; otherwise the new entry
/// comes last.
pub open spec fn insert_entry(entries: Seq<Entry>, key: Seq<char>, value: Seq<char>) -> Seq<Entry> {
    let i = position(entries, key);
    if i < entries.len() {
        entries.update(i, (key, value))
    } else {
        entries.push((key, value))
    }
}

/// Exactly one entry is stored under `key`.
pub open spec fn occurs_once(entries: Seq<Entry>, key: Seq<char>) -> bool {
    &&& position(entries, key) < entries.len()
    &&& forall|i: int|
        0 <= i < entries.len() && (#[trigger] entries[i]).0 == key ==> i == position(entries, key)
}

/// No two entries are stored under the same name.
pub open spec fn distinct_keys(entries: Seq<Entry>) -> bool {
    forall|i: int, j: int|
        0 <= i < j < entries.len() ==> (#[trigger] entries[i]).0 != (#[trigger] entries[j]).0
}

/// The names ascend strictly from each entry to the next.
pub open spec fn sorted_by_name(entries: Seq<Entry>) -> bool {
    forall|i: int, j: int|
        0 <= i < j < entries.len() ==> name_lt((#[trigger] entries[i]).0, (#[trigger] entries[j]).0)
}

/// The same entries in ascending order of their names.
pub open spec fn sorted_entries(entries: Seq<Entry>) -> Seq<Entry> {
    choose|sorted: Seq<Entry>|
        sorted_by_name(sorted) && sorted.to_multiset() == entries.to_multiset()
}

/// The entries after each of the selected packages, in order, was stored in a
/// manifest of the given kind.
pub open spec fn merged_entries(
    existing: Seq<Entry>,
    selected: Seq<SelectedPackageView>,
    is_npm: bool,
) -> Seq<Entry>
    decreases selected.len(),
{
    if selected.len() == 0 {
        existing
    } else {
        let entry = manifest_entry(selected.last(), is_npm);
        insert_entry(merged_entries(existing, selected.drop_last(), is_npm), entry.0, entry.1)
    }
}

/// An empty dependency map, by `IndexMap::new`.
#[verifier::external_body]
pub(crate) fn new_import_map() -> (m: IndexMap<String, String>)
    ensures
        map_entries(m) == Seq::<Entry>::empty(),
{
    IndexMap::new()
}

/// Stores `value` under `key`, by `IndexMap::insert`: where the map holds the
/// key already the entry keeps its place in the order and gets the new value,
/// otherwise the new entry comes last.
#[verifier::external_body]
pub(crate) fn insert_import(m: &mut IndexMap<String, String>, key: String, value: String)
    ensures
        map_entries(*final(m)) == insert_entry(map_entries(*old(m)), key@, value@),
{
    m.insert(key, value);
}

/// The entries of the map in its order, by `IndexMap::into_iter`. A map holds
/// each key once.
#[verifier::external_body]
pub(crate) fn into_entries(m: IndexMap<String, String>) -> (r: Vec<(String, String)>)
    ensures
        r.deep_view() == map_entries(m),
        distinct_keys(r.deep_view()),
{
    m.into_iter().collect()
}

/// `position` is an index of the entries or their number.
pub proof fn lemma_position_bounds(entries: Seq<Entry>, key: Seq<char>)
    ensures
        0 <= position(entries, key) <= entries.len(),
        position(entries, key) < entries.len() ==> entries[position(entries, key)].0 == key,
        forall|i: int| 0 <= i < position(entries, key) ==> (#[trigger] entries[i]).0 != key,
    decreases entries.len(),
{
    if entries.len() > 0 && entries[0].0 != key {
        lemma_position_bounds(entries.drop_first(), key);
        let p = position(entries.drop_first(), key);
        assert forall|i: int| 0 <= i < position(entries, key) implies (#[trigger] entries[i]).0
            != key by {
            if i > 0 {
                assert(entries[i] == entries.drop_first()[i - 1]);
            }
        }
        if p < entries.drop_first().len() {
            assert(entries[p + 1] == entries.drop_first()[p]);
        }
    }
}

/// Storing a value under a name gives that name the value and leaves every
/// other entry as it was, in its place.
pub proof fn lemma_insert_overwrites_only_its_name(
    entries: Seq<Entry>,
    key: Seq<char>,
    value: Seq<char>,
)
    ensures
        lookup(insert_entry(entries, key, value), key) == Some(value),
        forall|other: Seq<char>|
            other != key ==> #[trigger] lookup(insert_entry(entries, key, value), other) == lookup(
                entries,
                other,
            ),
        forall|i: int|
            0 <= i < entries.len() && entries[i].0 != key ==> #[trigger] insert_entry(
                entries,
                key,
                value,
            )[i] == entries[i],
        lookup(entries, key) is Some ==> insert_entry(entries, key, value).len() == entries.len(),
        lookup(entries, key) is None ==> insert_entry(entries, key, value).len() == entries.len()
            + 1,
{
    let after = insert_entry(entries, key, value);
    lemma_position_bounds(entries, key);
    lemma_position_bounds(after, key);
    let p = position(entries, key);
    assert(after[p] == (key, value));
    assert forall|other: Seq<char>| other != key implies #[trigger] lookup(after, other) == lookup(
        entries,
        other,
    ) by {
        lemma_position_bounds(entries, other);
        lemma_position_bounds(after, other);
        let q = position(entries, other);
        let r = position(after, other);
        if q < entries.len() {
            assert(after[q] == entries[q]);
        }
        if r < after.len() && r < entries.len() {
            assert(after[r].0 == entries[r].0);
        }
    }
}

/// Storing a value under a name keeps the names apart, and the name then
/// occurs once.
pub proof fn lemma_insert_keeps_distinct(entries: Seq<Entry>, key: Seq<char>, value: Seq<char>)
    requires
        distinct_keys(entries),
    ensures
        distinct_keys(insert_entry(entries, key, value)),
        forall|i: int|
            0 <= i < insert_entry(entries, key, value).len() ==> ((#[trigger] insert_entry(
                entries,
                key,
                value,
            )[i]).0 == key <==> i == position(entries, key)),
{
    let after = insert_entry(entries, key, value);
    lemma_position_bounds(entries, key);
    let p = position(entries, key);
    assert forall|i: int, j: int| 0 <= i < j < after.len() implies (#[trigger] after[i]).0 != (
    #[trigger] after[j]).0 by {
        if i < entries.len() && i != p {
            assert(after[i] == entries[i]);
        }
        if j < entries.len() && j != p {
            assert(after[j] == entries[j]);
        }
        if p < entries.len() {
            assert(entries[p].0 == key);
        }
    }
    assert forall|i: int| 0 <= i < after.len() implies ((#[trigger] after[i]).0 == key <==> i
        == p) by {
        assert(after[p].0 == key);
    }
}

/// Storing under one name twice is storing the second value once.
pub proof fn lemma_insert_twice(
    entries: Seq<Entry>,
    key: Seq<char>,
    first: Seq<char>,
    second: Seq<char>,
)
    ensures
        insert_entry(insert_entry(entries, key, first), key, second) == insert_entry(
            entries,
            key,
            second,
        ),
{
    let once = insert_entry(entries, key, first);
    lemma_position_bounds(entries, key);
    lemma_position_bounds(once, key);
    let p = position(entries, key);
    assert(once[p].0 == key);
    assert(position(once, key) == p);
    assert(insert_entry(once, key, second) =~= insert_entry(entries, key, second));
}

/// Merging keeps the names apart.
pub proof fn lemma_merged_keeps_distinct(
    existing: Seq<Entry>,
    selected: Seq<SelectedPackageView>,
    is_npm: bool,
)
    requires
        distinct_keys(existing),
    ensures
        distinct_keys(merged_entries(existing, selected, is_npm)),
    decreases selected.len(),
{
    if selected.len() > 0 {
        lemma_merged_keeps_distinct(existing, selected.drop_last(), is_npm);
        let entry = manifest_entry(selected.last(), is_npm);
        lemma_insert_keeps_distinct(
            merged_entries(existing, selected.drop_last(), is_npm),
            entry.0,
            entry.1,
        );
    }
}

/// Merging a package whose name the manifest holds already replaces that
/// entry's specifier and nothing else: every other entry keeps its place and
/// its value, and no entry is added.
pub proof fn lemma_merging_overwrites_only_its_name(
    existing: Seq<Entry>,
    package: SelectedPackageView,
    is_npm: bool,
)
    requires
        lookup(existing, manifest_entry(package, is_npm).0) is Some,
    ensures
        ({
            let entry = manifest_entry(package, is_npm);
            let merged = merged_entries(existing, seq![package], is_npm);
            &&& merged.len() == existing.len()
            &&& lookup(merged, entry.0) == Some(entry.1)
            &&& forall|i: int|
                0 <= i < existing.len() && existing[i].0 != entry.0 ==> #[trigger] merged[i]
                    == existing[i]
            &&& forall|other: Seq<char>|
                other != entry.0 ==> #[trigger] lookup(merged, other) == lookup(existing, other)
        }),
{
    let entry = manifest_entry(package, is_npm);
    assert(seq![package].drop_last() =~= Seq::<SelectedPackageView>::empty());
    assert(seq![package].last() == package);
    assert(merged_entries(existing, seq![package].drop_last(), is_npm) == existing);
    assert(merged_entries(existing, seq![package], is_npm) == insert_entry(
        existing,
        entry.0,
        entry.1,
    ));
    lemma_insert_overwrites_only_its_name(existing, entry.0, entry.1);
}

/// Merging a batch of packages leaves every entry whose name no package of
/// the batch has as it was: it is still stored under its name, with the value
/// that it had.
pub proof fn lemma_merged_keeps_other_entries(
    existing: Seq<Entry>,
    selected: Seq<SelectedPackageView>,
    is_npm: bool,
    key: Seq<char>,
)
    requires
        forall|i: int|
            0 <= i < selected.len() ==> manifest_entry(#[trigger] selected[i], is_npm).0 != key,
    ensures
        lookup(merged_entries(existing, selected, is_npm), key) == lookup(existing, key),
    decreases selected.len(),
{
    if selected.len() > 0 {
        let front = selected.drop_last();
        assert forall|i: int| 0 <= i < front.len() implies manifest_entry(
            #[trigger] front[i],
            is_npm,
        ).0 != key by {
            assert(front[i] == selected[i]);
        }
        lemma_merged_keeps_other_entries(existing, front, is_npm, key);
        let entry = manifest_entry(selected.last(), is_npm);
        assert(selected.last() == selected[selected.len() - 1]);
        lemma_insert_overwrites_only_its_name(
            merged_entries(existing, front, is_npm),
            entry.0,
            entry.1,
        );
    }
}

/// Adding a package and then adding a package of the same name gives the
/// manifest that adding only the second gives: the name occurs once, with the
/// second specifier.
pub proof fn lemma_adding_twice_keeps_the_second(
    existing: Seq<Entry>,
    first: SelectedPackageView,
    second: SelectedPackageView,
    is_npm: bool,
)
    requires
        distinct_keys(existing),
        manifest_entry(first, is_npm).0 == manifest_entry(second, is_npm).0,
    ensures
        ({
            let once = merged_entries(existing, seq![first], is_npm);
            let twice = merged_entries(once, seq![second], is_npm);
            let entry = manifest_entry(second, is_npm);
            &&& twice == merged_entries(existing, seq![second], is_npm)
            &&& lookup(twice, entry.0) == Some(entry.1)
            &&& occurs_once(twice, entry.0)
        }),
{
    let a = manifest_entry(first, is_npm);
    let b = manifest_entry(second, is_npm);
    assert(seq![first].drop_last() =~= Seq::<SelectedPackageView>::empty());
    assert(seq![second].drop_last() =~= Seq::<SelectedPackageView>::empty());
    assert(seq![first].last() == first);
    assert(seq![second].last() == second);
    let once = merged_entries(existing, seq![first], is_npm);
    assert(merged_entries(existing, seq![first].drop_last(), is_npm) == existing);
    assert(once == insert_entry(existing, a.0, a.1));
    assert(merged_entries(once, seq![second].drop_last(), is_npm) == once);
    assert(merged_entries(existing, seq![second].drop_last(), is_npm) == existing);
    let twice = merged_entries(once, seq![second], is_npm);
    assert(twice == insert_entry(once, b.0, b.1));
    lemma_insert_twice(existing, b.0, a.1, b.1);
    lemma_insert_overwrites_only_its_name(existing, b.0, b.1);
    lemma_insert_keeps_distinct(existing, b.0, b.1);
    lemma_position_bounds(existing, b.0);
    lemma_position_bounds(twice, b.0);
    assert(twice[position(existing, b.0)].0 == b.0);
}

/// Two lists of the same entries, each in ascending order of the names, are
/// one list.
pub proof fn lemma_sorted_is_unique(a: Seq<Entry>, b: Seq<Entry>)
    requires
        sorted_by_name(a),
        sorted_by_name(b),
        a.to_multiset() == b.to_multiset(),
    ensures
        a == b,
    decreases a.len(),
{
    a.to_multiset_ensures();
    b.to_multiset_ensures();
    assert(a.len() == a.to_multiset().len());
    assert(b.len() == b.to_multiset().len());
    if a.len() == 0 {
        assert(a =~= b);
    } else {
        assert(a.contains(a[0]));
        assert(b.to_multiset().count(a[0]) > 0);
        assert(b.contains(a[0]));
        let j = choose|j: int| 0 <= j < b.len() && b[j] == a[0];
        assert(b.contains(b[0]));
        assert(a.to_multiset().count(b[0]) > 0);
        assert(a.contains(b[0]));
        let i = choose|i: int| 0 <= i < a.len() && a[i] == b[0];
        if j > 0 {
            assert(name_lt(b[0].0, b[j].0));
            if i > 0 {
                assert(name_lt(a[0].0, a[i].0));
                lemma_name_lt_transitive(a[0].0, b[0].0, a[0].0);
            }
            lemma_name_lt_irreflexive(a[0].0);
        }
        assert(a[0] == b[0]);
        assert(a.remove(0) =~= a.drop_first());
        assert(b.remove(0) =~= b.drop_first());
        assert(a.drop_first().to_multiset() == b.drop_first().to_multiset());
        assert forall|x: int, y: int| 0 <= x < y < a.drop_first().len() implies name_lt(
            (#[trigger] a.drop_first()[x]).0,
            (#[trigger] a.drop_first()[y]).0,
        ) by {
            assert(a.drop_first()[x] == a[x + 1] && a.drop_first()[y] == a[y + 1]);
        }
        assert forall|x: int, y: int| 0 <= x < y < b.drop_first().len() implies name_lt(
            (#[trigger] b.drop_first()[x]).0,
            (#[trigger] b.drop_first()[y]).0,
        ) by {
            assert(b.drop_first()[x] == b[x + 1] && b.drop_first()[y] == b[y + 1]);
        }
        lemma_sorted_is_unique(a.drop_first(), b.drop_first());
        assert(a =~= seq![a[0]] + a.drop_first());
        assert(b =~= seq![b[0]] + b.drop_first());
    }
}

/// Merges the selected packages into the existing dependency map of a manifest
/// of the given kind, and gives the entries in ascending order of their names.
///
/// A package whose name the map holds already replaces that entry's specifier;
/// every other entry stays as it was.
pub fn merge_imports(
    existing: IndexMap<String, String>,
    selected: &Vec<SelectedPackage>,
    is_npm: bool,
) -> (r: Vec<(String, String)>)
    ensures
        sorted_by_name(r.deep_view()),
        r.deep_view().to_multiset() == merged_entries(
            map_entries(existing),
            selected.deep_view(),
            is_npm,
        ).to_multiset(),
        r.deep_view() == sorted_entries(
            merged_entries(map_entries(existing), selected.deep_view(), is_npm),
        ),
{
    let ghost before = map_entries(existing);
    let ghost all = selected.deep_view();
    let mut map = existing;
    let mut i: usize = 0;
    proof {
        assert(all.take(0) =~= Seq::<SelectedPackageView>::empty());
    }
    while i < selected.len()
        invariant
            0 <= i <= selected.len(),
            all == selected.deep_view(),
            all.len() == selected.len(),
            map_entries(map) == merged_entries(before, all.take(i as int), is_npm),
        decreases selected.len() - i,
    {
        let package = SelectedPackage {
            import_name: selected[i].import_name.clone(),
            package_name: selected[i].package_name.clone(),
            version_req: selected[i].version_req.clone(),
        };
        proof {
            assert(package@ == all[i as int]);
            assert(all.take(i as int + 1).drop_last() =~= all.take(i as int));
            assert(all.take(i as int + 1).last() == all[i as int]);
        }
        let (name, specifier) = manifest_dependency_entry(package, is_npm);
        insert_import(&mut map, name, specifier);
        i = i + 1;
    }
    proof {
        assert(all.take(i as int) =~= all);
    }
    let list = into_entries(map);
    let sorted = sort_by_name(list);
    proof {
        let merged = merged_entries(before, all, is_npm);
        lemma_sorted_is_unique(sorted.deep_view(), sorted_entries(merged));
    }
    sorted
}

/// The index at which an entry named `name` belongs among entries sorted by name.
fn insertion_index(sorted: &Vec<(String, String)>, name: &str) -> (i: usize)
    ensures
        i <= sorted.len(),
        forall|j: int| 0 <= j < i ==> !name_lt(name@, (#[trigger] sorted.deep_view()[j]).0),
        i < sorted.len() ==> name_lt(name@, sorted.deep_view()[i as int].0),
{
    let mut i: usize = 0;
    while i < sorted.len()
        invariant
            0 <= i <= sorted.len(),
            forall|j: int| 0 <= j < i ==> !name_lt(name@, (#[trigger] sorted.deep_view()[j]).0),
        decreases sorted.len() - i,
    {
        assert(sorted.deep_view()[i as int].0 == sorted[i as int].0@);
        if name_less(name, sorted[i].0.as_str()) {
            return i;
        }
        i = i + 1;
    }
    i
}

/// The entries in ascending order of their names.
fn sort_by_name(list: Vec<(String, String)>) -> (r: Vec<(String, String)>)
    requires
        distinct_keys(list.deep_view()),
    ensures
        r.deep_view().to_multiset() == list.deep_view().to_multiset(),
        sorted_by_name(r.deep_view()),
{
    let ghost all = list.deep_view();
    let mut rest = list;
    let mut out: Vec<(String, String)> = Vec::new();
    proof {
        assert(out.deep_view() =~= Seq::<Entry>::empty());
        assert(out.deep_view().to_multiset().add(rest.deep_view().to_multiset())
            =~= all.to_multiset());
    }
    loop
        invariant
            all == list.deep_view(),
            distinct_keys(rest.deep_view()),
            sorted_by_name(out.deep_view()),
            forall|i: int, j: int|
                0 <= i < out.len() && 0 <= j < rest.len() ==> (#[trigger] out.deep_view()[i]).0 != (
                #[trigger] rest.deep_view()[j]).0,
            out.deep_view().to_multiset().add(rest.deep_view().to_multiset()) == all.to_multiset(),
            out.deep_view().len() == out.len(),
            rest.deep_view().len() == rest.len(),
        decreases rest.len(),
    {
        let ghost rest_before = rest.deep_view();
        let ghost out_before = out.deep_view();
        match rest.pop() {
            None => {
                proof {
                    assert(rest.deep_view() =~= Seq::<Entry>::empty());
                    assert(out.deep_view().to_multiset().add(rest.deep_view().to_multiset())
                        =~= out.deep_view().to_multiset());
                }
                return out;
            },
            Some(entry) => {
                let ghost e: Entry = (entry.0@, entry.1@);
                proof {
                    assert(rest.deep_view() =~= rest_before.drop_last());
                    assert(rest_before.last() == e);
                    assert(rest_before =~= rest.deep_view().push(e));
                    assert forall|j: int| 0 <= j < rest.len() implies (
                    #[trigger] rest.deep_view()[j]).0 != e.0 by {
                        assert(rest.deep_view()[j] == rest_before[j]);
                        assert(rest_before[rest_before.len() - 1] == e);
                    }
                    assert forall|i: int| 0 <= i < out.len() implies (
                    #[trigger] out.deep_view()[i]).0 != e.0 by {
                        assert(rest_before[rest_before.len() - 1] == e);
                    }
                }
                let i = insertion_index(&out, entry.0.as_str());
                out.insert(i, entry);
                proof {
                    let after = out.deep_view();
                    assert(after =~= out_before.insert(i as int, e));
                    assert(after.remove(i as int) =~= out_before);
                    assert(after[i as int] == e);
                    assert(after.to_multiset() =~= out_before.to_multiset().insert(e)) by {
                        assert(after.remove(i as int).to_multiset() == after.to_multiset().remove(
                            after[i as int],
                        ));
                        assert(after.contains(e));
                    }
                    assert(rest_before.to_multiset() =~= rest.deep_view().to_multiset().insert(e));
                    assert(after.to_multiset().add(rest.deep_view().to_multiset())
                        =~= out_before.to_multiset().add(rest_before.to_multiset()));
                    assert forall|a: int, b: int| 0 <= a < b < after.len() implies name_lt(
                        (#[trigger] after[a]).0,
                        (#[trigger] after[b]).0,
                    ) by {
                        if b < i {
                            assert(after[a] == out_before[a] && after[b] == out_before[b]);
                        } else if b == i {
                            assert(after[a] == out_before[a]);
                            lemma_name_lt_total(out_before[a].0, e.0);
                        } else if a < i {
                            assert(after[a] == out_before[a] && after[b] == out_before[b - 1]);
                        } else if a == i {
                            assert(after[b] == out_before[b - 1]);
                            if b - 1 > i {
                                lemma_name_lt_transitive(
                                    e.0,
                                    out_before[i as int].0,
                                    out_before[b - 1].0,
                                );
                            }
                        } else {
                            assert(after[a] == out_before[a - 1] && after[b] == out_before[b - 1]);
                        }
                    }
                    assert forall|a: int, b: int|
                        0 <= a < out.len() && 0 <= b < rest.len() implies (#[trigger] after[a]).0 != (
                    #[trigger] rest.deep_view()[b]).0 by {
                        assert(rest.deep_view()[b] == rest_before[b]);
                        if a < i {
                            assert(after[a] == out_before[a]);
                        } else if a > i {
                            assert(after[a] == out_before[a - 1]);
                        }
                    }
                    assert forall|a: int, b: int| 0 <= a < b < rest.len() implies (
                    #[trigger] rest.deep_view()[a]).0 != (#[trigger] rest.deep_view()[b]).0 by {
                        assert(rest.deep_view()[a] == rest_before[a]);
                        assert(rest.deep_view()[b] == rest_before[b]);
                    }
                }
            },
        }
    }
}

} // verus!
