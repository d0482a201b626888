//! Ordering installed versions by directory name.
//!
//! Version directories are recognised by their name prefix and ranked by plain
//! string order, highest first. That order is not a version order: a name such
//! as `R-10.0.0` ranks below `R-9.0.0`, because `1` sorts before `9`.

use crate::text::{characters, texts};
use vstd::prelude::*;

verus! {

/// Plain string order: `a` sorts at or before `b` when, at the first position
/// where they differ, `a` has the smaller character, or when `a` is a prefix
/// of `b`.
pub open spec fn text_le(a: Seq<char>, b: Seq<char>) -> bool
    decreases a.len(),
{
    if a.len() == 0 {
        true
    } else if b.len() == 0 {
        false
    } else if a.first() == b.first() {
        text_le(a.drop_first(), b.drop_first())
    } else {
        (a.first() as u32) < (b.first() as u32)
    }
}

/// Any two texts are ordered one way or the other.
pub proof fn lemma_text_le_total(a: Seq<char>, b: Seq<char>)
    ensures
        text_le(a, b) || text_le(b, a),
    decreases a.len(),
{
    if a.len() > 0 && b.len() > 0 {
        if a.first() == b.first() {
            lemma_text_le_total(a.drop_first(), b.drop_first());
        } else {
            vstd::utf8::char_u32_cast(a.first(), a.first() as u32);
            vstd::utf8::char_u32_cast(b.first(), b.first() as u32);
        }
    }
}

/// Every text sorts at or before itself.
pub proof fn lemma_text_le_reflexive(a: Seq<char>)
    ensures
        text_le(a, a),
{
    lemma_text_le_total(a, a);
}

/// The order carries over a text in between.
pub proof fn lemma_text_le_transitive(a: Seq<char>, b: Seq<char>, c: Seq<char>)
    requires
        text_le(a, b),
        text_le(b, c),
    ensures
        text_le(a, c),
    decreases a.len(),
{
    if a.len() > 0 && b.len() > 0 && c.len() > 0 {
        if a.first() == b.first() && b.first() == c.first() {
            lemma_text_le_transitive(a.drop_first(), b.drop_first(), c.drop_first());
        }
    }
}

/// Texts that are ordered both ways are the same text.
pub proof fn lemma_text_le_antisymmetric(a: Seq<char>, b: Seq<char>)
    requires
        text_le(a, b),
        text_le(b, a),
    ensures
        a == b,
    decreases a.len(),
{
    if a.len() == 0 || b.len() == 0 {
        assert(a =~= b);
    } else {
        lemma_text_le_antisymmetric(a.drop_first(), b.drop_first());
        assert(a =~= seq![a.first()] + a.drop_first());
        assert(b =~= seq![b.first()] + b.drop_first());
    }
}

/// Decides plain string order.
pub fn sorts_at_or_before(a: &str, b: &str) -> (le: bool)
    ensures
        le == text_le(a@, b@),
{
    let left = characters(a);
    let right = characters(b);
    let mut i: usize = 0;
    assert(left@.skip(0) =~= left@ && right@.skip(0) =~= right@);
    while i < left.len() && i < right.len() && left[i] == right[i]
        invariant
            i <= left.len(),
            i <= right.len(),
            text_le(left@, right@) == text_le(left@.skip(i as int), right@.skip(i as int)),
        decreases left.len() - i,
    {
        assert(left@.skip(i as int).drop_first() =~= left@.skip(i + 1));
        assert(right@.skip(i as int).drop_first() =~= right@.skip(i + 1));
        i += 1;
    }
    if i == left.len() {
        true
    } else if i == right.len() {
        false
    } else {
        (left[i] as u32) < (right[i] as u32)
    }
}

/// Whether a directory name has the prefix that marks an installed version.
pub open spec fn is_version_name(name: Seq<char>) -> bool {
    name.len() >= 2 && name[0] == 'R' && name[1] == '-'
}

/// The test that picks installed versions out of a directory's entries.
pub open spec fn version_filter() -> spec_fn(Seq<char>) -> bool {
    |name: Seq<char>| is_version_name(name)
}

/// The entries that name an installed version, in the order given.
pub open spec fn version_names(entries: Seq<Seq<char>>) -> Seq<Seq<char>> {
    entries.filter(version_filter())
}

/// Each name sorts at or after every name that follows it.
pub open spec fn descending(names: Seq<Seq<char>>) -> bool {
    forall|i: int, j: int| 0 <= i < j < names.len() ==> text_le(names[j], names[i])
}

/// `sorted` holds exactly the given names, highest first.
pub open spec fn is_descending_order_of(sorted: Seq<Seq<char>>, names: Seq<Seq<char>>) -> bool {
    descending(sorted) && sorted.to_multiset() == names.to_multiset()
}

/// There is only one way to put names in descending order.
pub proof fn lemma_descending_order_unique(
    a: Seq<Seq<char>>,
    b: Seq<Seq<char>>,
    names: Seq<Seq<char>>,
)
    requires
        is_descending_order_of(a, names),
        is_descending_order_of(b, names),
    ensures
        a == b,
    decreases a.len(),
{
    broadcast use vstd::seq_lib::to_multiset_len, vstd::seq_lib::to_multiset_contains;

    assert(a.len() == b.len()) by {
        assert(a.to_multiset().len() == a.len());
        assert(b.to_multiset().len() == b.len());
    }
    if a.len() == 0 {
        assert(a =~= b);
    } else {
        assert(a.contains(a[0]));
        assert(b.to_multiset().count(a[0]) > 0);
        assert(b.contains(a[0]));
        let j = choose|j: int| 0 <= j < b.len() && b[j] == a[0];
        lemma_text_le_reflexive(a[0]);
        lemma_text_le_reflexive(b[0]);
        assert(text_le(a[0], b[0]));
        assert(b.contains(b[0]));
        assert(a.to_multiset().count(b[0]) > 0);
        assert(a.contains(b[0]));
        let k = choose|k: int| 0 <= k < a.len() && a[k] == b[0];
        assert(text_le(b[0], a[0]));
        lemma_text_le_antisymmetric(a[0], b[0]);
        let a_rest = a.drop_first();
        let b_rest = b.drop_first();
        assert(a_rest =~= a.remove(0));
        assert(b_rest =~= b.remove(0));
        vstd::seq_lib::to_multiset_remove(a, 0);
        vstd::seq_lib::to_multiset_remove(b, 0);
        assert(descending(a_rest)) by {
            assert forall|i: int, j: int| 0 <= i < j < a_rest.len() implies text_le(
                a_rest[j],
                a_rest[i],
            ) by {
                assert(a_rest[i] == a[i + 1] && a_rest[j] == a[j + 1]);
            }
        }
        assert(descending(b_rest)) by {
            assert forall|i: int, j: int| 0 <= i < j < b_rest.len() implies text_le(
                b_rest[j],
                b_rest[i],
            ) by {
                assert(b_rest[i] == b[i + 1] && b_rest[j] == b[j + 1]);
            }
        }
        lemma_descending_order_unique(a_rest, b_rest, a_rest);
        assert(a =~= seq![a[0]] + a_rest);
        assert(b =~= seq![b[0]] + b_rest);
    }
}

/// The installed versions among the entries of a directory, highest name
/// first.
pub open spec fn versions_descending(entries: Seq<Seq<char>>) -> Seq<Seq<char>> {
    choose|sorted: Seq<Seq<char>>| is_descending_order_of(sorted, version_names(entries))
}

/// Whether a directory name marks an installed version.
pub fn names_version(name: &str) -> (b: bool)
    ensures
        b == is_version_name(name@),
{
    let chars = characters(name);
    chars.len() >= 2 && chars[0] == 'R' && chars[1] == '-'
}

/// Picks the installed versions out of a directory's entries and ranks them
/// by name, highest first.
pub fn installed_versions(entries: &Vec<String>) -> (versions: Vec<String>)
    ensures
        texts(versions@) == versions_descending(texts(entries@)),
        is_descending_order_of(texts(versions@), version_names(texts(entries@))),
{
    let mut versions: Vec<String> = Vec::new();
    let mut i: usize = 0;
    assert(texts(entries@).take(0) =~= Seq::<Seq<char>>::empty());
    assert(version_names(Seq::<Seq<char>>::empty()) =~= Seq::<Seq<char>>::empty()) by {
        reveal(Seq::filter);
    }
    assert(texts(versions@) =~= Seq::<Seq<char>>::empty());
    while i < entries.len()
        invariant
            i <= entries.len(),
            is_descending_order_of(
                texts(versions@),
                version_names(texts(entries@).take(i as int)),
            ),
        decreases entries.len() - i,
    {
        let ghost seen = texts(entries@).take(i as int);
        let ghost name = entries@[i as int]@;
        proof {
            assert(texts(entries@).take(i + 1) =~= seen.push(name));
            seen.lemma_filter_push(name, version_filter());
        }
        if names_version(entries[i].as_str()) {
            let ghost before = texts(versions@);
            let mut at: usize = 0;
            while at < versions.len() && !sorts_at_or_before(
                versions[at].as_str(),
                entries[i].as_str(),
            )
                invariant
                    at <= versions.len(),
                    i < entries.len(),
                    name == entries@[i as int]@,
                    forall|k: int| 0 <= k < at ==> !text_le(#[trigger] versions@[k]@, name),
                decreases versions.len() - at,
            {
                at += 1;
            }
            versions.insert(at, entries[i].clone());
            proof {
                let after = texts(versions@);
                assert(after =~= before.insert(at as int, name));
                vstd::seq_lib::to_multiset_insert(before, at as int, name);
                vstd::seq_lib::to_multiset_build(version_names(seen), name);
                assert forall|x: int, y: int| 0 <= x < y < after.len() implies text_le(
                    after[y],
                    after[x],
                ) by {
                    if y == at {
                        assert(after[x] == before[x]);
                        lemma_text_le_total(before[x], name);
                    } else if x == at {
                        assert(after[y] == before[y - 1]);
                        assert(text_le(before[at as int], name));
                        if y - 1 > at {
                            assert(text_le(before[y - 1], before[at as int]));
                            lemma_text_le_transitive(before[y - 1], before[at as int], name);
                        }
                    } else {
                        let px = if x < at { x } else { x - 1 };
                        let py = if y < at { y } else { y - 1 };
                        assert(after[x] == before[px] && after[y] == before[py]);
                    }
                }
            }
        }
        i += 1;
    }
    proof {
        assert(texts(entries@).take(entries.len() as int) =~= texts(entries@));
        let wanted = version_names(texts(entries@));
        let chosen = versions_descending(texts(entries@));
        assert(is_descending_order_of(chosen, wanted));
        lemma_descending_order_unique(texts(versions@), chosen, wanted);
    }
    versions
}

/// The first of the ranked versions is a version-named entry, and no
/// version-named entry sorts after it.
pub proof fn lemma_highest_version_first(entries: Seq<Seq<char>>, i: int)
    requires
        0 <= i < entries.len(),
        is_version_name(entries[i]),
    ensures
        versions_descending(entries).len() > 0,
        text_le(entries[i], versions_descending(entries)[0]),
        is_version_name(versions_descending(entries)[0]),
        entries.contains(versions_descending(entries)[0]),
{
    broadcast use vstd::seq_lib::to_multiset_len, vstd::seq_lib::to_multiset_contains;

    let wanted = version_names(entries);
    lemma_descending_order_exists(wanted);
    let sorted = versions_descending(entries);
    assert(is_descending_order_of(sorted, wanted));
    entries.lemma_filter_contains(version_filter(), i);
    assert(wanted.contains(entries[i]));
    assert(sorted.to_multiset().count(entries[i]) > 0);
    assert(sorted.contains(entries[i]));
    let j = choose|j: int| 0 <= j < sorted.len() && sorted[j] == entries[i];
    if j > 0 {
        assert(text_le(sorted[j], sorted[0]));
    } else {
        lemma_text_le_reflexive(sorted[0]);
    }
    assert(sorted.contains(sorted[0]));
    assert(wanted.to_multiset().count(sorted[0]) > 0);
    assert(wanted.contains(sorted[0]));
    let k = choose|k: int| 0 <= k < wanted.len() && wanted[k] == sorted[0];
    entries.lemma_filter_pred(version_filter(), k);
    entries.lemma_filter_contains_rev(version_filter(), sorted[0]);
}

/// Any names can be put in descending order.
pub proof fn lemma_descending_order_exists(names: Seq<Seq<char>>)
    ensures
        exists|sorted: Seq<Seq<char>>| is_descending_order_of(sorted, names),
    decreases names.len(),
{
    if names.len() == 0 {
        assert(is_descending_order_of(names, names));
    } else {
        let front = names.drop_last();
        let name = names.last();
        lemma_descending_order_exists(front);
        let before = choose|sorted: Seq<Seq<char>>| is_descending_order_of(sorted, front);
        let at = first_at_or_below(before, name);
        lemma_first_at_or_below(before, name);
        let after = before.insert(at, name);
        vstd::seq_lib::to_multiset_insert(before, at, name);
        vstd::seq_lib::to_multiset_build(front, name);
        assert(names =~= front.push(name));
        assert forall|x: int, y: int| 0 <= x < y < after.len() implies text_le(
            after[y],
            after[x],
        ) by {
            if y == at {
                assert(after[x] == before[x]);
                lemma_text_le_total(before[x], name);
            } else if x == at {
                assert(after[y] == before[y - 1]);
                if y - 1 > at {
                    assert(text_le(before[y - 1], before[at]));
                    lemma_text_le_transitive(before[y - 1], before[at], name);
                }
            } else {
                let px = if x < at { x } else { x - 1 };
                let py = if y < at { y } else { y - 1 };
                assert(after[x] == before[px] && after[y] == before[py]);
            }
        }
        assert(is_descending_order_of(after, names));
    }
}

/// The first position in `sorted` whose name sorts at or before `name`.
spec fn first_at_or_below(sorted: Seq<Seq<char>>, name: Seq<char>) -> int
    decreases sorted.len(),
{
    if sorted.len() == 0 || text_le(sorted[0], name) {
        0
    } else {
        1 + first_at_or_below(sorted.drop_first(), name)
    }
}

/// Everything before that position sorts after `name`, and the name at it,
/// if there is one, does not.
proof fn lemma_first_at_or_below(sorted: Seq<Seq<char>>, name: Seq<char>)
    ensures
        0 <= first_at_or_below(sorted, name) <= sorted.len(),
        forall|k: int| 0 <= k < first_at_or_below(sorted, name) ==> !text_le(#[trigger] sorted[k], name),
        first_at_or_below(sorted, name) < sorted.len() ==> text_le(
            sorted[first_at_or_below(sorted, name)],
            name,
        ),
    decreases sorted.len(),
{
    if !(sorted.len() == 0 || text_le(sorted[0], name)) {
        let rest = sorted.drop_first();
        lemma_first_at_or_below(rest, name);
        assert forall|k: int| 0 <= k < first_at_or_below(sorted, name) implies !text_le(
            #[trigger] sorted[k],
            name,
        ) by {
            if k > 0 {
                assert(sorted[k] == rest[k - 1]);
            }
        }
        if first_at_or_below(sorted, name) < sorted.len() {
            assert(sorted[first_at_or_below(sorted, name)] == rest[first_at_or_below(rest, name)]);
        }
    }
}

} // verus!
