//! The key grouping engine: a stable, order-preserving multi-map. Group
//! order is the order in which each distinct key name was first seen; member
//! order within a group is declaration order.

use vstd::prelude::*;

use crate::descriptor::{cols_view, keys_view, FieldColumn, FieldColumnV, Key, KeyV};
use crate::schema::{key_tags_view, KeyTag, KeyTagV};

verus! {

/// The keys of a sequence of key-value pairs, in order.
pub open spec fn pair_keys<V>(items: Seq<(String, V)>) -> Seq<Seq<char>> {
    items.map_values(|p: (String, V)| p.0@)
}

/// The distinct values of a sequence, each kept once, in the order each was
/// first seen.
pub open spec fn first_seen(names: Seq<Seq<char>>) -> Seq<Seq<char>>
    decreases names.len(),
{
    if names.len() == 0 {
        Seq::empty()
    } else {
        let fs = first_seen(names.drop_last());
        if fs.contains(names.last()) {
            fs
        } else {
            fs.push(names.last())
        }
    }
}

/// The values paired with one key, in the order they occur.
pub open spec fn values_for<V>(items: Seq<(String, V)>, name: Seq<char>) -> Seq<V>
    decreases items.len(),
{
    if items.len() == 0 {
        Seq::empty()
    } else {
        let rest = values_for(items.drop_last(), name);
        if items.last().0@ == name {
            rest.push(items.last().1)
        } else {
            rest
        }
    }
}

/// The keys of a grouped result, in order.
pub open spec fn group_names<V>(r: Seq<(String, Vec<V>)>) -> Seq<Seq<char>> {
    r.map_values(|g: (String, Vec<V>)| g.0@)
}

/// A value occurs among the first-seen names exactly when it occurs among
/// the names themselves.
pub proof fn lemma_first_seen_contains(names: Seq<Seq<char>>, x: Seq<char>)
    ensures
        first_seen(names).contains(x) == names.contains(x),
    decreases names.len(),
{
    if names.len() > 0 {
        lemma_first_seen_contains(names.drop_last(), x);
        let fs = first_seen(names.drop_last());
        if names.contains(x) {
            let i = choose|i: int| 0 <= i < names.len() && names[i] == x;
            if i < names.len() - 1 {
                assert(names.drop_last()[i] == x);
                assert(names.drop_last().contains(x));
                if !fs.contains(names.last()) {
                    assert(fs.push(names.last()).contains(x)) by {
                        let j = choose|j: int| 0 <= j < fs.len() && fs[j] == x;
                        assert(fs.push(names.last())[j] == x);
                    }
                }
            } else {
                if !fs.contains(names.last()) {
                    assert(fs.push(x)[fs.len() as int] == x);
                }
            }
        } else {
            assert(forall|i: int|
                0 <= i < names.len() - 1 ==> names.drop_last()[i] == #[trigger] names[i]);
            assert(!names.drop_last().contains(x)) by {
                if names.drop_last().contains(x) {
                    let i = choose|i: int|
                        0 <= i < names.drop_last().len() && names.drop_last()[i] == x;
                    assert(names[i] == x);
                }
            }
            if !fs.contains(names.last()) {
                assert(!fs.push(names.last()).contains(x)) by {
                    if fs.push(names.last()).contains(x) {
                        let j = choose|j: int|
                            0 <= j < fs.len() + 1 && fs.push(names.last())[j] == x;
                        if j < fs.len() {
                            assert(fs[j] == x);
                        } else {
                            assert(names.last() == x);
                            assert(names[names.len() - 1] == x);
                        }
                    }
                }
            }
        }
    }
}

/// Each distinct name stands in the first-seen sequence exactly once.
pub proof fn lemma_first_seen_no_duplicates(names: Seq<Seq<char>>)
    ensures
        first_seen(names).no_duplicates(),
    decreases names.len(),
{
    if names.len() > 0 {
        lemma_first_seen_no_duplicates(names.drop_last());
        let fs = first_seen(names.drop_last());
        if !fs.contains(names.last()) {
            assert(fs.push(names.last()).no_duplicates()) by {
                assert(forall|i: int| 0 <= i < fs.len() ==> fs.push(names.last())[i] == fs[i]);
                assert forall|i: int| 0 <= i < fs.len() implies #[trigger] fs[i]
                    != names.last() by {
                    if fs[i] == names.last() {
                        assert(fs.contains(names.last()));
                    }
                }
            }
        }
    }
}

/// A key that never occurs pairs with no values.
proof fn lemma_values_for_absent<V>(items: Seq<(String, V)>, name: Seq<char>)
    requires
        forall|i: int| 0 <= i < items.len() ==> (#[trigger] items[i]).0@ != name,
    ensures
        values_for(items, name) == Seq::<V>::empty(),
    decreases items.len(),
{
    if items.len() > 0 {
        assert(forall|i: int|
            0 <= i < items.len() - 1 ==> (#[trigger] items.drop_last()[i]) == items[i]);
        lemma_values_for_absent(items.drop_last(), name);
        assert(items.last() == items[items.len() - 1]);
    }
}

/// Groups key-value pairs by key into an order-preserving multi-map: one
/// entry per distinct key, entries in the order each key was first seen,
/// and each entry carrying that key's values in their input order.
pub fn index<V>(items: Vec<(String, V)>) -> (r: Vec<(String, Vec<V>)>)
    ensures
        group_names(r@) == first_seen(pair_keys(items@)),
        forall|j: int|
            0 <= j < r@.len() ==> (#[trigger] r@[j]).1@ == values_for(items@, r@[j].0@),
{
    let ghost orig = items@;
    let mut rest = items;
    let mut r: Vec<(String, Vec<V>)> = Vec::new();
    let ghost mut done: int = 0;

    proof {
        assert(rest@ =~= orig.skip(0));
        assert(orig.take(0) =~= Seq::<(String, V)>::empty());
        assert(pair_keys(orig.take(0)) =~= Seq::<Seq<char>>::empty());
    }

    while rest.len() > 0
        invariant
            0 <= done <= orig.len(),
            rest@ == orig.skip(done),
            group_names(r@) == first_seen(pair_keys(orig.take(done))),
            forall|j: int|
                0 <= j < r@.len() ==> (#[trigger] r@[j]).1@ == values_for(
                    orig.take(done),
                    r@[j].0@,
                ),
        decreases rest@.len(),
    {
        let (k, v) = rest.remove(0);
        proof {
            assert(k == orig[done].0);
            assert(rest@ =~= orig.skip(done + 1));
        }

        let mut gi: usize = 0;
        while gi < r.len() && !(r[gi].0 == k)
            invariant
                0 <= gi <= r@.len(),
                forall|j: int| 0 <= j < gi ==> (#[trigger] r@[j]).0@ != k@,
            decreases r@.len() - gi,
        {
            gi = gi + 1;
        }

        proof {
            let prefix = orig.take(done);
            let step = orig.take(done + 1);
            assert(step.drop_last() =~= prefix);
            assert(step.last() == orig[done]);
            assert(pair_keys(step).drop_last() =~= pair_keys(prefix));
            assert(pair_keys(step).last() == k@);
            lemma_first_seen_no_duplicates(pair_keys(prefix));
        }

        if gi < r.len() {
            let ghost r0 = r@;
            let mut pair = r.remove(gi);
            pair.1.push(v);
            r.insert(gi, pair);
            proof {
                let prefix = orig.take(done);
                let step = orig.take(done + 1);
                let fs = first_seen(pair_keys(prefix));
                assert(r0[gi as int].0@ == k@);
                assert(group_names(r0)[gi as int] == k@);
                assert(fs.contains(k@));
                assert(first_seen(pair_keys(step)) == fs);
                assert(r@ =~= r0.update(gi as int, (r0[gi as int].0, pair.1)));
                assert(group_names(r@) =~= group_names(r0));
                assert forall|j: int| 0 <= j < r@.len() implies (#[trigger] r@[j]).1@
                    == values_for(step, r@[j].0@) by {
                    if j == gi {
                        assert(r@[j].0@ == k@);
                        assert(values_for(step, k@) == values_for(prefix, k@).push(v));
                        assert(r0[j].1@ == values_for(prefix, k@));
                    } else {
                        assert(r@[j] == r0[j]);
                        assert(group_names(r0)[j] == r0[j].0@);
                        assert(r0[j].0@ != k@);
                        assert(values_for(step, r0[j].0@) == values_for(prefix, r0[j].0@));
                    }
                }
                done = done + 1;
            }
        } else {
            let ghost r0 = r@;
            let mut vs: Vec<V> = Vec::new();
            vs.push(v);
            r.push((k, vs));
            proof {
                let prefix = orig.take(done);
                let step = orig.take(done + 1);
                let fs = first_seen(pair_keys(prefix));
                assert(!fs.contains(k@)) by {
                    if fs.contains(k@) {
                        let j = choose|j: int| 0 <= j < fs.len() && fs[j] == k@;
                        assert(group_names(r0)[j] == r0[j].0@);
                        assert(r0[j].0@ != k@);
                    }
                }
                assert(first_seen(pair_keys(step)) == fs.push(k@));
                assert(group_names(r@) =~= fs.push(k@));
                lemma_first_seen_contains(pair_keys(prefix), k@);
                assert(!pair_keys(prefix).contains(k@));
                assert forall|i: int| 0 <= i < prefix.len() implies (#[trigger] prefix[i]).0@
                    != k@ by {
                    if prefix[i].0@ == k@ {
                        assert(pair_keys(prefix)[i] == k@);
                    }
                }
                lemma_values_for_absent(prefix, k@);
                assert forall|j: int| 0 <= j < r@.len() implies (#[trigger] r@[j]).1@
                    == values_for(step, r@[j].0@) by {
                    if j == r0.len() {
                        assert(r@[j].1@ =~= Seq::<V>::empty().push(v));
                        assert(values_for(step, k@) == values_for(prefix, k@).push(v));
                    } else {
                        assert(r@[j] == r0[j]);
                        assert(group_names(r0)[j] == r0[j].0@);
                        assert(r0[j].0@ != k@);
                        assert(values_for(step, r0[j].0@) == values_for(prefix, r0[j].0@));
                    }
                }
                done = done + 1;
            }
        }
    }

    proof {
        assert(orig.skip(done).len() == 0);
        assert(done == orig.len());
        assert(orig.take(done) =~= orig);
    }
    r
}

/// The names of a sequence of key tags, in order.
pub open spec fn tag_names(tags: Seq<KeyTagV>) -> Seq<Seq<char>> {
    tags.map_values(|t: KeyTagV| t.name)
}

/// The tags bearing one key name, in declaration order.
pub open spec fn members(tags: Seq<KeyTagV>, name: Seq<char>) -> Seq<KeyTagV>
    decreases tags.len(),
{
    if tags.len() == 0 {
        Seq::empty()
    } else {
        let rest = members(tags.drop_last(), name);
        if tags.last().name == name {
            rest.push(tags.last())
        } else {
            rest
        }
    }
}

/// A group is unique when any of its members carries the unique flag.
/// Members may disagree; a single unique member promotes the whole group,
/// and disagreement is not rejected.
pub open spec fn group_unique(tags: Seq<KeyTagV>, name: Seq<char>) -> bool {
    exists|i: int|
        0 <= i < members(tags, name).len() && (#[trigger] members(tags, name)[i]).unique
}

/// The field columns of a sequence of tags, in order.
pub open spec fn tag_fields(ts: Seq<KeyTagV>) -> Seq<FieldColumnV> {
    ts.map_values(|t: KeyTagV| t.field)
}

/// The key one name gives rise to: the name, the OR of its members' unique
/// flags, and the members' fields in declaration order.
pub open spec fn key_for(tags: Seq<KeyTagV>, name: Seq<char>) -> KeyV {
    KeyV {
        name: name,
        unique: group_unique(tags, name),
        components: tag_fields(members(tags, name)),
    }
}

/// The key groups of a tag sequence: one key per distinct name, in the order
/// each name was first seen.
pub open spec fn keys_of(tags: Seq<KeyTagV>) -> Seq<KeyV> {
    first_seen(tag_names(tags)).map_values(|n: Seq<char>| key_for(tags, n))
}

/// Grouping yields exactly one key per distinct key name: the group names
/// are the distinct tag names, each once, in first-seen order.
pub proof fn lemma_one_key_per_name(tags: Seq<KeyTagV>)
    ensures
        keys_of(tags).len() == first_seen(tag_names(tags)).len(),
        first_seen(tag_names(tags)).no_duplicates(),
        forall|x: Seq<char>|
            first_seen(tag_names(tags)).contains(x) == tag_names(tags).contains(x),
        forall|j: int|
            0 <= j < keys_of(tags).len() ==> (#[trigger] keys_of(tags)[j]).name == first_seen(
                tag_names(tags),
            )[j],
{
    lemma_first_seen_no_duplicates(tag_names(tags));
    assert forall|x: Seq<char>|
        first_seen(tag_names(tags)).contains(x) == tag_names(tags).contains(x) by {
        lemma_first_seen_contains(tag_names(tags), x);
    }
}

/// A key group's uniqueness equals the logical OR of its members'
/// individually declared unique flags.
pub proof fn lemma_uniqueness_is_or(tags: Seq<KeyTagV>, j: int)
    requires
        0 <= j < keys_of(tags).len(),
    ensures
        keys_of(tags)[j].unique == (exists|i: int|
            0 <= i < members(tags, keys_of(tags)[j].name).len() && (#[trigger] members(
                tags,
                keys_of(tags)[j].name,
            )[i]).unique),
{
    let fs = first_seen(tag_names(tags));
    assert(keys_of(tags)[j] == key_for(tags, fs[j]));
    let nm = keys_of(tags)[j].name;
    assert(nm == fs[j]);
    assert(keys_of(tags)[j].unique == group_unique(tags, nm));
    assert(group_unique(tags, nm) == (exists|i: int|
        0 <= i < members(tags, nm).len() && (#[trigger] members(tags, nm)[i]).unique));
}

/// A key's components are exactly the fields tagged with its name, in
/// declaration order.
pub proof fn lemma_components_in_declaration_order(tags: Seq<KeyTagV>, j: int)
    requires
        0 <= j < keys_of(tags).len(),
    ensures
        keys_of(tags)[j].components == tag_fields(members(tags, keys_of(tags)[j].name)),
{
}

/// Every member of a name's group is one of the tags.
pub proof fn lemma_members_are_tags(tags: Seq<KeyTagV>, name: Seq<char>, j: int)
    requires
        0 <= j < members(tags, name).len(),
    ensures
        tags.contains(members(tags, name)[j]),
    decreases tags.len(),
{
    let front = tags.drop_last();
    if j < members(front, name).len() {
        lemma_members_are_tags(front, name, j);
        let i = choose|i: int| 0 <= i < front.len() && front[i] == members(front, name)[j];
        assert(tags[i] == members(tags, name)[j]);
    } else {
        assert(members(tags, name)[j] == tags.last());
        assert(tags[tags.len() - 1] == tags.last());
    }
}

/// A name that some tag carries has at least one member in its group.
pub proof fn lemma_members_nonempty(tags: Seq<KeyTagV>, name: Seq<char>)
    requires
        tag_names(tags).contains(name),
    ensures
        members(tags, name).len() >= 1,
    decreases tags.len(),
{
    let i = choose|i: int| 0 <= i < tag_names(tags).len() && tag_names(tags)[i] == name;
    assert(tags[i].name == name);
    if i == tags.len() - 1 {
        assert(tags.last().name == name);
    } else {
        assert(tag_names(tags.drop_last())[i] == name);
        assert(tag_names(tags.drop_last()).contains(name));
        lemma_members_nonempty(tags.drop_last(), name);
    }
}

/// Pairing each tag with its name and grouping the pairs selects exactly the
/// members of each name.
proof fn lemma_values_are_members(items: Seq<(String, KeyTag)>, tags: Seq<KeyTag>, name: Seq<char>)
    requires
        items.len() == tags.len(),
        forall|i: int|
            0 <= i < items.len() ==> (#[trigger] items[i]).1 == tags[i] && items[i].0@
                == tags[i]@.name,
    ensures
        key_tags_view(values_for(items, name)) == members(key_tags_view(tags), name),
    decreases items.len(),
{
    let tv = key_tags_view(tags);
    if items.len() == 0 {
        assert(key_tags_view(values_for(items, name)) =~= members(tv, name));
    } else {
        assert(forall|i: int|
            0 <= i < items.len() - 1 ==> (#[trigger] items.drop_last()[i]) == items[i]);
        assert(forall|i: int|
            0 <= i < tags.len() - 1 ==> (#[trigger] tags.drop_last()[i]) == tags[i]);
        lemma_values_are_members(items.drop_last(), tags.drop_last(), name);
        assert(key_tags_view(tags.drop_last()) =~= tv.drop_last());
        assert(tv.last() == tags.last()@);
        assert(items.last().0@ == tags.last()@.name);
        if items.last().0@ == name {
            assert(values_for(items, name) == values_for(items.drop_last(), name).push(
                items.last().1,
            ));
            assert(key_tags_view(values_for(items, name)) =~= key_tags_view(
                values_for(items.drop_last(), name),
            ).push(items.last().1@));
            assert(members(tv, name) == members(tv.drop_last(), name).push(tv.last()));
            assert(items.last().1@ == tv.last());
        } else {
            assert(values_for(items, name) == values_for(items.drop_last(), name));
            assert(members(tv, name) == members(tv.drop_last(), name));
        }
    }
}

/// Groups the raw key tags into keys: one key per distinct key name, in
/// first-seen order; each key's components are its tagged fields in
/// declaration order, and its uniqueness is the OR of its members' flags.
pub fn group_keys(tags: Vec<KeyTag>) -> (r: Vec<Key>)
    ensures
        keys_view(r@) == keys_of(key_tags_view(tags@)),
{
    let ghost tags0 = tags@;
    let ghost tv = key_tags_view(tags@);

    let mut rest = tags;
    let mut items: Vec<(String, KeyTag)> = Vec::new();
    while rest.len() > 0
        invariant
            rest@ == tags0.skip(items@.len() as int),
            items@.len() <= tags0.len(),
            forall|i: int|
                0 <= i < items@.len() ==> (#[trigger] items@[i]).1 == tags0[i] && items@[i].0@
                    == tags0[i]@.name,
        decreases rest@.len(),
    {
        let ghost idone = items@.len() as int;
        let t = rest.remove(0);
        proof {
            assert(t == tags0[idone]);
            assert(rest@ =~= tags0.skip(idone + 1));
        }
        let nm = t.name.clone();
        items.push((nm, t));
    }

    let ghost items0 = items@;
    proof {
        assert(items0.len() == tags0.len());
        assert(pair_keys(items0) =~= tag_names(tv));
    }

    let groups = index(items);
    let ghost groups0 = groups@;
    let ghost fs = first_seen(tag_names(tv));
    proof {
        assert(group_names(groups0) == first_seen(pair_keys(items0)));
        assert(fs == first_seen(pair_keys(items0)));
    }

    let mut grs = groups;
    let mut r: Vec<Key> = Vec::new();
    proof {
        assert(keys_view(r@) =~= keys_of(tv).take(0));
    }
    while grs.len() > 0
        invariant
            grs@ == groups0.skip(r@.len() as int),
            r@.len() <= groups0.len(),
            groups0.len() == keys_of(tv).len(),
            group_names(groups0) == fs,
            fs == first_seen(tag_names(tv)),
            tv == key_tags_view(tags0),
            items0.len() == tags0.len(),
            forall|i: int|
                0 <= i < items0.len() ==> (#[trigger] items0[i]).1 == tags0[i] && items0[i].0@
                    == tags0[i]@.name,
            forall|j: int|
                0 <= j < groups0.len() ==> (#[trigger] groups0[j]).1@ == values_for(
                    items0,
                    groups0[j].0@,
                ),
            keys_view(r@) == keys_of(tv).take(r@.len() as int),
        decreases grs@.len(),
    {
        let ghost gdone = r@.len() as int;
        let gpair = grs.remove(0);
        proof {
            assert(gpair == groups0[gdone]);
            assert(grs@ =~= groups0.skip(gdone + 1));
        }
        let (nm, group) = gpair;
        let ghost gv = key_tags_view(group@);
        proof {
            assert(group_names(groups0)[gdone] == nm@);
            assert(group@ == groups0[gdone].1@);
            lemma_values_are_members(items0, tags0, nm@);
            assert(gv == members(tv, nm@));
        }

        // the OR of the members' unique flags
        let mut u = false;
        let mut ui: usize = 0;
        while ui < group.len()
            invariant
                0 <= ui <= group@.len(),
                gv == key_tags_view(group@),
                u == exists|i: int| 0 <= i < ui && (#[trigger] gv[i]).unique,
            decreases group@.len() - ui,
        {
            let ghost u0 = u;
            if group[ui].unique {
                u = true;
            }
            proof {
                assert(gv[ui as int].unique == group@[ui as int]@.unique);
                if u {
                    if !u0 {
                        assert(gv[ui as int].unique);
                    }
                } else {
                    assert(forall|i: int| 0 <= i < ui + 1 ==> !(#[trigger] gv[i]).unique);
                }
            }
            ui = ui + 1;
        }

        // the members' fields, in declaration order
        let ghost group1 = group@;
        let mut comps: Vec<FieldColumn> = Vec::new();
        let mut grest = group;
        while grest.len() > 0
            invariant
                grest@ == group1.skip(comps@.len() as int),
                comps@.len() <= group1.len(),
                forall|i: int|
                    0 <= i < comps@.len() ==> (#[trigger] comps@[i])@ == group1[i]@.field,
            decreases grest@.len(),
        {
            let ghost cdone = comps@.len() as int;
            let t = grest.remove(0);
            proof {
                assert(t == group1[cdone]);
                assert(grest@ =~= group1.skip(cdone + 1));
            }
            comps.push(t.field);
        }
        proof {
            assert(cols_view(comps@) =~= tag_fields(key_tags_view(group1)));
        }

        let ghost r0 = r@;
        r.push(Key::new(nm, u, comps));
        proof {
            let kj = keys_of(tv)[gdone];
            assert(kj == key_for(tv, fs[gdone]));
            assert(fs[gdone] == nm@);
            assert(gv == members(tv, nm@));
            assert(u == group_unique(tv, nm@)) by {
                if u {
                    let i = choose|i: int| 0 <= i < gv.len() && (#[trigger] gv[i]).unique;
                    assert(members(tv, nm@)[i].unique);
                } else {
                    if group_unique(tv, nm@) {
                        let i = choose|i: int|
                            0 <= i < members(tv, nm@).len() && (#[trigger] members(
                                tv,
                                nm@,
                            )[i]).unique;
                        assert(gv[i].unique);
                    }
                }
            }
            assert(r@.last()@ == kj);
            assert(keys_view(r@) =~= keys_of(tv).take(gdone + 1));
        }
    }

    proof {
        assert(r@.len() == groups0.len());
        assert(keys_of(tv).take(groups0.len() as int) =~= keys_of(tv));
    }
    r
}

} // verus!
