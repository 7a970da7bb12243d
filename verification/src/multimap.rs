//! An ordered multi-valued map keyed by header names: names stay in the
//! order in which they first came, and the values of a name in the order in
//! which they were added.

use vstd::prelude::*;
use crate::compare::bytes_equal;
use crate::http_specs::header_name_bytes;

verus! {

/// The groups of a map: each name, as its bytes, with its values.
pub type Groups<V> = Seq<(Seq<u8>, Seq<V>)>;

/// Whether some group goes by the name.
pub open spec fn has_name<V>(groups: Groups<V>, name: Seq<u8>) -> bool {
    exists|i: int| 0 <= i < groups.len() && (#[trigger] groups[i]).0 == name
}

/// Whether the group at that place is the first that goes by the name.
pub open spec fn is_first_of_name<V>(groups: Groups<V>, name: Seq<u8>, at: int) -> bool {
    &&& 0 <= at < groups.len()
    &&& groups[at].0 == name
    &&& forall|j: int| 0 <= j < at ==> (#[trigger] groups[j]).0 != name
}

/// The place of the first group that goes by the name, if there is one.
pub open spec fn position<V>(groups: Groups<V>, name: Seq<u8>) -> int {
    choose|at: int| is_first_of_name(groups, name, at)
}

/// The values under the name; none if no group goes by it.
pub open spec fn values_of<V>(groups: Groups<V>, name: Seq<u8>) -> Seq<V> {
    if has_name(groups, name) {
        groups[position(groups, name)].1
    } else {
        Seq::empty()
    }
}

/// The groups after one value is added under the name: at the end of the
/// name's group if there is one, else as a new group behind all others.
pub open spec fn with_value<V>(groups: Groups<V>, name: Seq<u8>, value: V) -> Groups<V> {
    if has_name(groups, name) {
        let at = position(groups, name);
        groups.update(at, (name, groups[at].1.push(value)))
    } else {
        groups.push((name, seq![value]))
    }
}

/// The groups after the values of one decoded entry are taken in: a new
/// group behind all others, unless the name is taken already or there is no
/// value, in which case nothing changes.
pub open spec fn absorb<V>(groups: Groups<V>, name: Seq<u8>, values: Seq<V>) -> Groups<V> {
    if values.len() == 0 || has_name(groups, name) {
        groups
    } else {
        groups.push((name, values))
    }
}

/// The map that a list of decoded entries builds, one entry after the other
/// in their order: the first entry of a name that brings a value gives the
/// name's group, later ones are dropped.
pub open spec fn build<V>(entries: Groups<V>) -> Groups<V>
    decreases entries.len(),
{
    if entries.len() == 0 {
        Seq::empty()
    } else {
        absorb(build(entries.drop_last()), entries.last().0, entries.last().1)
    }
}

/// No two groups go by the same name.
pub open spec fn distinct_names<V>(groups: Groups<V>) -> bool {
    forall|i: int, j: int|
        0 <= i < j < groups.len() ==> (#[trigger] groups[i]).0 != (#[trigger] groups[j]).0
}

/// Every group has a value.
pub open spec fn no_empty_group<V>(groups: Groups<V>) -> bool {
    forall|i: int| 0 <= i < groups.len() ==> (#[trigger] groups[i]).1.len() > 0
}

/// What holds of every map: names are distinct and no group is empty.
pub open spec fn well_formed<V>(groups: Groups<V>) -> bool {
    distinct_names(groups) && no_empty_group(groups)
}

/// A name that some group goes by has a first group, and `position` is its
/// place.
pub proof fn position_is_first<V>(groups: Groups<V>, name: Seq<u8>)
    requires
        has_name(groups, name),
    ensures
        is_first_of_name(groups, name, position(groups, name)),
    decreases groups.len(),
{
    let some = choose|i: int| 0 <= i < groups.len() && (#[trigger] groups[i]).0 == name;
    if exists|j: int| 0 <= j < some && (#[trigger] groups[j]).0 == name {
        let front = groups.take(some);
        let earlier = choose|j: int| 0 <= j < some && (#[trigger] groups[j]).0 == name;
        assert(front[earlier].0 == name);
        position_is_first(front, name);
        let at = position(front, name);
        assert forall|j: int| 0 <= j < at implies (#[trigger] groups[j]).0 != name by {
            assert(front[j].0 != name);
        }
        assert(is_first_of_name(groups, name, at));
    } else {
        assert(is_first_of_name(groups, name, some));
    }
}

/// The first group of a name stands at one place only.
pub proof fn first_of_name_is_position<V>(groups: Groups<V>, name: Seq<u8>, at: int)
    requires
        is_first_of_name(groups, name, at),
    ensures
        has_name(groups, name),
        position(groups, name) == at,
{
}

/// How `build` goes on by one entry.
pub proof fn build_push<V>(entries: Groups<V>, name: Seq<u8>, values: Seq<V>)
    ensures
        build(entries.push((name, values))) == absorb(build(entries), name, values),
{
    assert(entries.push((name, values)).drop_last() =~= entries);
}

/// A built map never shrinks as more entries are taken in.
pub proof fn build_grows<V>(entries: Groups<V>, upto: int)
    requires
        0 <= upto <= entries.len(),
    ensures
        build(entries.take(upto)).len() <= build(entries).len(),
    decreases entries.len() - upto,
{
    if upto < entries.len() {
        assert(entries.take(upto + 1).drop_last() =~= entries.take(upto));
        build_grows(entries, upto + 1);
    } else {
        assert(entries.take(upto) =~= entries);
    }
}

/// Taking in an entry keeps a map well formed.
pub proof fn absorb_keeps_well_formed<V>(groups: Groups<V>, name: Seq<u8>, values: Seq<V>)
    requires
        well_formed(groups),
    ensures
        well_formed(absorb(groups, name, values)),
{
    let after = absorb(groups, name, values);
    if after != groups {
        assert forall|i: int| 0 <= i < after.len() implies (#[trigger] after[i]).1.len() > 0 by {
            if i < groups.len() {
                assert(groups[i].1.len() > 0);
            }
        }
    }
}

/// Adding a value keeps a map well formed.
pub proof fn with_value_keeps_well_formed<V>(groups: Groups<V>, name: Seq<u8>, value: V)
    requires
        well_formed(groups),
    ensures
        well_formed(with_value(groups, name, value)),
{
    if has_name(groups, name) {
        position_is_first(groups, name);
    } else {
        absorb_keeps_well_formed(groups, name, seq![value]);
    }
}

/// What `build` gives is a well-formed map.
pub proof fn build_is_well_formed<V>(entries: Groups<V>)
    ensures
        well_formed(build(entries)),
    decreases entries.len(),
{
    if entries.len() > 0 {
        build_is_well_formed(entries.drop_last());
        absorb_keeps_well_formed(build(entries.drop_last()), entries.last().0, entries.last().1);
    }
}

/// Every group of a built map is one of the entries.
pub proof fn built_groups_come_from_entries<V>(entries: Groups<V>)
    ensures
        forall|i: int|
            0 <= i < build(entries).len() ==> entries.contains(#[trigger] build(entries)[i]),
    decreases entries.len(),
{
    if entries.len() > 0 {
        let front = entries.drop_last();
        built_groups_come_from_entries(front);
        let built = build(entries);
        assert forall|i: int| 0 <= i < built.len() implies entries.contains(
            #[trigger] built[i],
        ) by {
            if i < build(front).len() {
                let at = choose|at: int| 0 <= at < front.len() && front[at] == build(front)[i];
                assert(entries[at] == built[i]);
            }
        }
    }
}

/// Building from the groups of a well-formed map gives that map.
pub proof fn build_of_well_formed<V>(groups: Groups<V>)
    requires
        well_formed(groups),
    ensures
        build(groups) == groups,
    decreases groups.len(),
{
    if groups.len() > 0 {
        let front = groups.drop_last();
        assert(well_formed(front));
        build_of_well_formed(front);
        assert(!has_name(front, groups.last().0));
    }
}

/// The names of the groups after an entry is taken in: those from before,
/// and the entry's name if it brings a value.
pub proof fn absorb_has_name<V>(groups: Groups<V>, name: Seq<u8>, values: Seq<V>, other: Seq<u8>)
    ensures
        has_name(absorb(groups, name, values), other) <==> has_name(groups, other) || (other == name
            && values.len() > 0),
{
    let after = absorb(groups, name, values);
    if has_name(groups, other) {
        let at = choose|i: int| 0 <= i < groups.len() && (#[trigger] groups[i]).0 == other;
        assert(after[at].0 == other);
    }
    if other == name && values.len() > 0 && !has_name(groups, name) {
        assert(after[groups.len() as int].0 == other);
    }
}

/// Taking in an entry leaves the values of every name that the map has
/// already as they are.
pub proof fn absorb_keeps_values<V>(
    groups: Groups<V>,
    name: Seq<u8>,
    values: Seq<V>,
    other: Seq<u8>,
)
    requires
        has_name(groups, other),
    ensures
        values_of(absorb(groups, name, values), other) == values_of(groups, other),
{
    let after = absorb(groups, name, values);
    position_is_first(groups, other);
    first_of_name_is_position(after, other, position(groups, other));
}

/// Taking in an entry of a new name that brings values gives the name
/// those values.
pub proof fn absorb_gives_values<V>(groups: Groups<V>, name: Seq<u8>, values: Seq<V>)
    requires
        !has_name(groups, name),
        values.len() > 0,
    ensures
        values_of(absorb(groups, name, values), name) == values,
{
    first_of_name_is_position(absorb(groups, name, values), name, groups.len() as int);
}

/// Whether some entry goes by the name and brings a value.
pub open spec fn brings_values<V>(entries: Groups<V>, name: Seq<u8>) -> bool {
    exists|j: int|
        0 <= j < entries.len() && (#[trigger] entries[j]).0 == name && entries[j].1.len() > 0
}

/// Whether the entry at that place is the first of its name that brings a
/// value.
pub open spec fn is_first_with_values<V>(entries: Groups<V>, at: int) -> bool {
    &&& 0 <= at < entries.len()
    &&& entries[at].1.len() > 0
    &&& forall|j: int|
        0 <= j < at && (#[trigger] entries[j]).0 == entries[at].0 ==> entries[j].1.len() == 0
}

/// The names of a built map are the names of the entries that bring a
/// value.
pub proof fn build_has_name<V>(entries: Groups<V>, name: Seq<u8>)
    ensures
        has_name(build(entries), name) <==> brings_values(entries, name),
    decreases entries.len(),
{
    if entries.len() > 0 {
        let front = entries.drop_last();
        let last = entries.last();
        build_has_name(front, name);
        absorb_has_name(build(front), last.0, last.1, name);
        if brings_values(entries, name) {
            let j = choose|j: int|
                0 <= j < entries.len() && (#[trigger] entries[j]).0 == name && entries[j].1.len()
                    > 0;
            if j < front.len() {
                assert(front[j].0 == name && front[j].1.len() > 0);
            }
        }
    }
}

/// Where several entries go by one name, the first of them that brings a
/// value gives the name its values.
pub proof fn first_entry_gives_the_values<V>(entries: Groups<V>, at: int)
    requires
        is_first_with_values(entries, at),
    ensures
        has_name(build(entries), entries[at].0),
        values_of(build(entries), entries[at].0) == entries[at].1,
    decreases entries.len(),
{
    let name = entries[at].0;
    let front = entries.drop_last();
    let last = entries.last();
    if at == entries.len() - 1 {
        build_has_name(front, name);
        absorb_gives_values(build(front), name, last.1);
        absorb_has_name(build(front), name, last.1, name);
    } else {
        assert(is_first_with_values(front, at));
        first_entry_gives_the_values(front, at);
        absorb_keeps_values(build(front), last.0, last.1, name);
        absorb_has_name(build(front), last.0, last.1, name);
    }
}

/// An entry that follows one of the same name that brings a value counts
/// for nothing: the map is the same without it.
pub proof fn later_entry_is_dropped<V>(entries: Groups<V>, first: int, second: int)
    requires
        0 <= first < second < entries.len(),
        entries[first].0 == entries[second].0,
        entries[first].1.len() > 0,
    ensures
        build(entries.remove(second)) == build(entries),
    decreases entries.len(),
{
    let front = entries.drop_last();
    let last = entries.last();
    if second == entries.len() - 1 {
        build_has_name(front, last.0);
        assert(front[first].0 == last.0 && front[first].1.len() > 0);
    } else {
        later_entry_is_dropped(front, first, second);
        assert(entries.remove(second).drop_last() =~= front.remove(second));
    }
}

/// One name of a map with the values added under it.
#[derive(Clone, Debug, PartialEq, Eq)]
pub struct Group<T> {
    pub name: http::HeaderName,
    pub values: Vec<T>,
}

impl<T> View for Group<T> {
    type V = (Seq<u8>, Seq<T>);

    open spec fn view(&self) -> (Seq<u8>, Seq<T>) {
        (header_name_bytes(self.name), self.values@)
    }
}

/// An ordered multi-valued map keyed by header names.
///
/// The groups are open to the caller, who may write down any list of them;
/// `well_formed` says whether the list is a map. A map that is made with
/// `new` and filled with `append` is well formed.
#[derive(Clone, Debug, PartialEq, Eq)]
pub struct OrderedMultiMap<T> {
    pub groups: Vec<Group<T>>,
}

impl<T> View for OrderedMultiMap<T> {
    type V = Groups<T>;

    open spec fn view(&self) -> Groups<T> {
        Seq::new(self.groups@.len(), |i: int| self.groups@[i]@)
    }
}

impl<T> OrderedMultiMap<T> {
    /// Whether the groups are a map: names are distinct and no group is
    /// empty.
    pub open spec fn well_formed(&self) -> bool {
        well_formed(self@)
    }

    /// A map that holds nothing.
    pub fn new() -> (map: Self)
        ensures
            map@ == Groups::<T>::empty(),
            map.well_formed(),
    {
        OrderedMultiMap { groups: Vec::new() }
    }

    /// The number of groups.
    pub fn keys_len(&self) -> (count: usize)
        ensures
            count == self@.len(),
    {
        self.groups.len()
    }

    /// The place of the first group that goes by the name.
    fn find(&self, name: &http::HeaderName) -> (place: Option<usize>)
        ensures
            match place {
                Some(at) => is_first_of_name(self@, header_name_bytes(*name), at as int),
                None => !has_name(self@, header_name_bytes(*name)),
            },
    {
        let wanted = name.as_str().as_bytes();
        let mut at: usize = 0;
        while at < self.groups.len()
            invariant
                at <= self.groups@.len(),
                wanted@ == header_name_bytes(*name),
                forall|j: int| 0 <= j < at ==> (#[trigger] self@[j]).0 != header_name_bytes(*name),
            decreases self.groups@.len() - at,
        {
            if bytes_equal(self.groups[at].name.as_str().as_bytes(), wanted) {
                return Some(at);
            }
            at += 1;
        }
        None
    }

    /// Whether the map has a group of that name.
    pub fn contains_key(&self, name: &http::HeaderName) -> (found: bool)
        ensures
            found == has_name(self@, header_name_bytes(*name)),
    {
        self.find(name).is_some()
    }

    /// Adds a value under the name: at the end of the name's group if there
    /// is one, else as a new group behind all others. Says whether the name
    /// was there before.
    pub fn append(&mut self, name: http::HeaderName, value: T) -> (found: bool)
        ensures
            found == has_name(old(self)@, header_name_bytes(name)),
            final(self)@ == with_value(old(self)@, header_name_bytes(name), value),
            old(self).well_formed() ==> final(self).well_formed(),
    {
        proof {
            if old(self).well_formed() {
                with_value_keeps_well_formed(old(self)@, header_name_bytes(name), value);
            }
        }
        match self.find(&name) {
            Some(at) => {
                proof {
                    first_of_name_is_position(self@, header_name_bytes(name), at as int);
                }
                self.groups[at].values.push(value);
                true
            },
            None => {
                let mut values = Vec::new();
                values.push(value);
                self.groups.push(Group { name, values });
                false
            },
        }
    }
}

} // verus!
