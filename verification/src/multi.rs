//! A field that holds either one unnamed value or any number of named values.

use crate::text::str_equal;
use vstd::prelude::*;

verus! {

/// Either exactly one unnamed value, or zero or more values each stored under
/// an instance name.
///
/// Looking a name up yields the first entry that carries it; in a well-formed
/// value (see [`MultiView::wf`]) no name occurs twice, so that entry is the
/// only one.
#[derive(Debug, PartialEq, Eq)]
pub enum Multi<T> {
    Multi(Vec<(String, T)>),
    Single(T),
}

/// The mathematical content of a [`Multi`]: its shape, and for the named
/// shape, the entries with their names as character sequences.
pub enum MultiView<T> {
    Multi(Seq<(Seq<char>, T)>),
    Single(T),
}

/// The instance name that a caller addresses, as a character sequence.
pub open spec fn key_view(key: Option<&str>) -> Option<Seq<char>> {
    match key {
        Some(name) => Some(name@),
        None => None,
    }
}

/// `i` is the index of the first entry of `entries` named `name`.
pub open spec fn is_first_at<T>(entries: Seq<(Seq<char>, T)>, name: Seq<char>, i: int) -> bool {
    &&& 0 <= i < entries.len()
    &&& entries[i].0 == name
    &&& forall|j: int| 0 <= j < i ==> (#[trigger] entries[j]).0 != name
}

/// The index of the first entry named `name`, if there is one.
pub open spec fn position<T>(entries: Seq<(Seq<char>, T)>, name: Seq<char>) -> Option<int> {
    if exists|i: int| is_first_at(entries, name, i) {
        Some(choose|i: int| is_first_at(entries, name, i))
    } else {
        None
    }
}

/// The first entry named `name` is unique, so finding one settles `position`.
pub proof fn lemma_position_found<T>(entries: Seq<(Seq<char>, T)>, name: Seq<char>, i: int)
    requires
        is_first_at(entries, name, i),
    ensures
        position(entries, name) == Some(i),
{
    let j = choose|j: int| is_first_at(entries, name, j);
    assert(is_first_at(entries, name, j));
    if j < i {
        assert(entries[j].0 != name);
    } else if i < j {
        assert(entries[i].0 != name);
    }
}

/// Where no entry carries the name, there is no position.
pub proof fn lemma_position_absent<T>(entries: Seq<(Seq<char>, T)>, name: Seq<char>)
    requires
        forall|j: int| 0 <= j < entries.len() ==> (#[trigger] entries[j]).0 != name,
    ensures
        position(entries, name) is None,
{
}

/// An entry that carries the name guarantees a first one, at or before it.
pub proof fn lemma_position_exists<T>(entries: Seq<(Seq<char>, T)>, name: Seq<char>, i: int)
    requires
        0 <= i < entries.len(),
        entries[i].0 == name,
    ensures
        position(entries, name) matches Some(first) && 0 <= first <= i && is_first_at(
            entries,
            name,
            first,
        ),
    decreases i,
{
    if exists|j: int| 0 <= j < i && (#[trigger] entries[j]).0 == name {
        let j = choose|j: int| 0 <= j < i && (#[trigger] entries[j]).0 == name;
        lemma_position_exists(entries, name, j);
    } else {
        assert(is_first_at(entries, name, i));
        lemma_position_found(entries, name, i);
    }
}

/// Whether and where a name is found depends on the names alone.
pub proof fn lemma_position_by_names<T, U>(
    xs: Seq<(Seq<char>, T)>,
    ys: Seq<(Seq<char>, U)>,
    name: Seq<char>,
)
    requires
        xs.len() == ys.len(),
        forall|i: int| 0 <= i < xs.len() ==> (#[trigger] xs[i]).0 == ys[i].0,
    ensures
        position(xs, name) == position(ys, name),
{
    if exists|i: int| is_first_at(xs, name, i) {
        let i = choose|i: int| is_first_at(xs, name, i);
        assert(xs[i].0 == ys[i].0);
        assert forall|j: int| 0 <= j < i implies (#[trigger] ys[j]).0 != name by {
            assert(xs[j].0 == ys[j].0);
        }
        assert(is_first_at(ys, name, i));
        lemma_position_found(ys, name, i);
    } else {
        if exists|i: int| is_first_at(ys, name, i) {
            let i = choose|i: int| is_first_at(ys, name, i);
            assert(xs[i].0 == ys[i].0);
            assert forall|j: int| 0 <= j < i implies (#[trigger] xs[j]).0 != name by {
                assert(xs[j].0 == ys[j].0);
            }
            assert(is_first_at(xs, name, i));
        }
    }
}

/// The entries of a named collection, each name taken as a character sequence.
pub open spec fn entry_views<T>(entries: Seq<(String, T)>) -> Seq<(Seq<char>, T)> {
    Seq::new(entries.len(), |i: int| (entries[i].0@, entries[i].1))
}

impl<T> MultiView<T> {
    /// The value that `key` addresses: the single value for no name against
    /// the single shape, the named entry for a name against the named shape,
    /// and nothing on any mismatch of key and shape.
    pub open spec fn get(self, key: Option<Seq<char>>) -> Option<T> {
        match (self, key) {
            (MultiView::Single(value), None) => Some(value),
            (MultiView::Multi(entries), Some(name)) => match position(entries, name) {
                Some(i) => Some(entries[i].1),
                None => None,
            },
            _ => None,
        }
    }

    /// The same structure with the value that `key` addresses replaced by
    /// `value`; unchanged where `key` addresses nothing.
    pub open spec fn set(self, key: Option<Seq<char>>, value: T) -> MultiView<T> {
        match (self, key) {
            (MultiView::Single(_), None) => MultiView::Single(value),
            (MultiView::Multi(entries), Some(name)) => match position(entries, name) {
                Some(i) => MultiView::Multi(entries.update(i, (name, value))),
                None => self,
            },
            _ => self,
        }
    }

    /// Whether this is the single, unnamed shape.
    pub open spec fn is_single(self) -> bool {
        self is Single
    }

    /// The number of values held: one for the single shape, the number of
    /// entries for the named shape.
    pub open spec fn count(self) -> nat {
        match self {
            MultiView::Single(_) => 1,
            MultiView::Multi(entries) => entries.len(),
        }
    }

    /// The structure with `f` applied to every value: the shape, the names
    /// and their places stay.
    pub open spec fn map_values<U>(self, f: spec_fn(T) -> U) -> MultiView<U> {
        match self {
            MultiView::Single(value) => MultiView::Single(f(value)),
            MultiView::Multi(entries) => MultiView::Multi(
                Seq::new(entries.len(), |i: int| (entries[i].0, f(entries[i].1))),
            ),
        }
    }

    /// `value` is one of the values held, whatever the shape.
    pub open spec fn holds(self, value: T) -> bool {
        match self {
            MultiView::Single(single) => single == value,
            MultiView::Multi(entries) => exists|i: int|
                #![trigger entries[i]]
                0 <= i < entries.len() && entries[i].1 == value,
        }
    }

    /// `other` has the shape of `self`, the same names in the same places,
    /// and each of its values is related by `rel` to the value of `self` in
    /// that place.
    pub open spec fn corresponds<U>(self, other: MultiView<U>, rel: spec_fn(T, U) -> bool) -> bool {
        match (self, other) {
            (MultiView::Single(a), MultiView::Single(b)) => rel(a, b),
            (MultiView::Multi(xs), MultiView::Multi(ys)) => {
                &&& xs.len() == ys.len()
                &&& forall|i: int|
                    0 <= i < xs.len() ==> (#[trigger] ys[i]).0 == xs[i].0 && rel(xs[i].1, ys[i].1)
            },
            _ => false,
        }
    }

    /// No instance name occurs twice.
    pub open spec fn wf(self) -> bool {
        match self {
            MultiView::Single(_) => true,
            MultiView::Multi(entries) => forall|i: int, j: int|
                0 <= i < j < entries.len() ==> (#[trigger] entries[i]).0 != (#[trigger] entries[j]).0,
        }
    }
}

impl<T> Multi<T> {
    /// The content of this value, names taken as character sequences.
    pub open spec fn model(self) -> MultiView<T> {
        match self {
            Multi::Multi(entries) => MultiView::Multi(entry_views(entries@)),
            Multi::Single(value) => MultiView::Single(value),
        }
    }

    /// Retrieves the value that `key` addresses, if it exists.
    ///
    /// A single value is retrieved with `None`, a named value with
    /// `Some(name)`. A key that does not fit the shape retrieves nothing.
    pub fn get(&self, key: Option<&str>) -> (r: Option<&T>)
        ensures
            match r {
                Some(value) => self.model().get(key_view(key)) == Some(*value),
                None => self.model().get(key_view(key)) is None,
            },
    {
        match (self, key) {
            (Multi::Single(value), None) => Some(value),
            (Multi::Multi(entries), Some(name)) => match find_entry(entries, name) {
                Some(i) => Some(&entries[i].1),
                None => None,
            },
            _ => None,
        }
    }

    /// Gives mutable access to the value that `key` addresses, under the same
    /// matching rule as [`Multi::get`]. No entry is created: a name that is
    /// absent, or a key that does not fit the shape, yields `None` and leaves
    /// the value as it was.
    pub fn get_mut(&mut self, key: Option<&str>) -> (r: Option<&mut T>)
        ensures
            match r {
                Some(value) => {
                    &&& old(self).model().get(key_view(key)) == Some(*value)
                    &&& final(self).model() == old(self).model().set(
                        key_view(key),
                        *final(value),
                    )
                },
                None => {
                    &&& old(self).model().get(key_view(key)) is None
                    &&& *final(self) == *old(self)
                },
            },
    {
        match (self, key) {
            (Multi::Single(value), None) => Some(value),
            (Multi::Multi(entries), Some(name)) => match find_entry(entries, name) {
                Some(i) => {
                    let ghost before = entries@;
                    let slot = &mut entries[i];
                    let value = &mut slot.1;
                    proof {
                        let after = before.update(i as int, (before[i as int].0, *final(value)));
                        assert(entry_views(after) =~= entry_views(before).update(
                            i as int,
                            (name@, *final(value)),
                        ));
                    }
                    Some(value)
                },
                None => None,
            },
            _ => None,
        }
    }
}

/// Every entry's value is one of the values held.
proof fn lemma_entry_is_held<T>(entries: Seq<(Seq<char>, T)>, j: int)
    requires
        0 <= j < entries.len(),
    ensures
        MultiView::Multi(entries).holds(entries[j].1),
{
    let value = entries[j].1;
    let held = MultiView::Multi(entries);
    assert(held is Multi && held->Multi_0 == entries);
    assert(exists|i: int| #![trigger entries[i]] 0 <= i < entries.len() && entries[i].1 == value);
    assert(held.holds(value) == (exists|i: int|
        #![trigger entries[i]]
        0 <= i < entries.len() && entries[i].1 == value));
}

impl<T> Multi<T> {
    /// Applies `f` to every value held and keeps the structure: a single
    /// value stays single, and a named collection keeps its names, their
    /// number and their places.
    pub fn map_values<U>(self, f: impl Fn(T) -> U) -> (r: Multi<U>)
        requires
            forall|value: T| self.model().holds(value) ==> f.requires((value,)),
        ensures
            self.model().corresponds(r.model(), |a: T, b: U| f.ensures((a,), b)),
            r.model().is_single() == self.model().is_single(),
            r.model().count() == self.model().count(),
    {
        match self {
            Multi::Multi(entries) => {
                let ghost source = entries@;
                let mut mapped: Vec<(String, U)> = Vec::new();
                assert forall|j: int| 0 <= j < source.len() implies f.requires(
                    ((#[trigger] source[j]).1,),
                ) by {
                    let views = entry_views(source);
                    assert(self.model() == MultiView::Multi(views));
                    lemma_entry_is_held(views, j);
                }
                for entry in it: entries
                    invariant
                        it.seq() == source,
                        mapped@.len() == it.index(),
                        forall|j: int|
                            0 <= j < source.len() ==> f.requires(((#[trigger] source[j]).1,)),
                        forall|j: int|
                            0 <= j < mapped@.len() ==> (#[trigger] mapped@[j]).0@ == source[j].0@
                                && f.ensures((source[j].1,), mapped@[j].1),
                {
                    let (name, value) = entry;
                    mapped.push((name, f(value)));
                }
                Multi::Multi(mapped)
            },
            Multi::Single(value) => {
                assert(self.model().holds(value));
                Multi::Single(f(value))
            },
        }
    }
}

/// The single shape answers to the absent name with its value, and to every
/// name with nothing.
pub proof fn lemma_single_get<T>(value: T, key: Option<Seq<char>>)
    ensures
        key is None ==> MultiView::Single(value).get(key) == Some(value),
        key is Some ==> MultiView::Single(value).get(key) is None,
{
}

/// The named shape answers to the absent name with nothing, and to a name as
/// the mapping from names to values does: with a value exactly when some
/// entry carries the name, and, names being distinct, with the value of that
/// entry.
pub proof fn lemma_named_get<T>(entries: Seq<(Seq<char>, T)>, name: Seq<char>)
    ensures
        MultiView::Multi(entries).get(None) is None,
        MultiView::Multi(entries).get(Some(name)) is Some <==> exists|i: int|
            0 <= i < entries.len() && (#[trigger] entries[i]).0 == name,
        MultiView::Multi(entries).wf() ==> forall|i: int|
            0 <= i < entries.len() && (#[trigger] entries[i]).0 == name ==> MultiView::Multi(
                entries,
            ).get(Some(name)) == Some(entries[i].1),
{
    let named = MultiView::Multi(entries);
    if exists|i: int| 0 <= i < entries.len() && (#[trigger] entries[i]).0 == name {
        let i = choose|i: int| 0 <= i < entries.len() && (#[trigger] entries[i]).0 == name;
        lemma_position_exists(entries, name, i);
    } else {
        lemma_position_absent(entries, name);
    }
    if named.wf() {
        assert forall|i: int|
            0 <= i < entries.len() && (#[trigger] entries[i]).0 == name implies named.get(
            Some(name),
        ) == Some(entries[i].1) by {
            lemma_position_exists(entries, name, i);
            let first = position(entries, name)->0;
            if first < i {
                assert(entries[first].0 != entries[i].0);
            }
        }
    }
}

/// What is written under a key is what is then read under it, provided the
/// key addressed a value before.
pub proof fn lemma_get_after_set<T>(held: MultiView<T>, key: Option<Seq<char>>, value: T)
    requires
        held.get(key) is Some,
    ensures
        held.set(key, value).get(key) == Some(value),
{
    match (held, key) {
        (MultiView::Multi(entries), Some(name)) => {
            let i = position(entries, name)->0;
            let updated = entries.update(i, (name, value));
            assert(is_first_at(entries, name, i));
            assert forall|j: int| 0 <= j < i implies (#[trigger] updated[j]).0 != name by {
                assert(entries[j].0 != name);
            }
            assert(is_first_at(updated, name, i));
            lemma_position_found(updated, name, i);
        },
        _ => {},
    }
}

/// Writing a value changes neither the shape, nor the number of values, nor
/// whether the names are distinct.
pub proof fn lemma_set_keeps_structure<T>(held: MultiView<T>, key: Option<Seq<char>>, value: T)
    ensures
        held.set(key, value).is_single() == held.is_single(),
        held.set(key, value).count() == held.count(),
        held.set(key, value).wf() == held.wf(),
{
    match (held, key) {
        (MultiView::Multi(entries), Some(name)) => {
            if position(entries, name) is Some {
                let i = position(entries, name)->0;
                assert(is_first_at(entries, name, i));
                let updated = entries.update(i, (name, value));
                assert forall|j: int| 0 <= j < entries.len() implies (#[trigger] updated[j]).0
                    == entries[j].0 by {}
                if held.wf() {
                    assert forall|a: int, b: int| 0 <= a < b < updated.len() implies (
                    #[trigger] updated[a]).0 != (#[trigger] updated[b]).0 by {
                        assert(entries[a].0 != entries[b].0);
                    }
                }
                let after = MultiView::Multi(updated);
                assert(after is Multi && after->Multi_0 == updated);
                assert(held.set(key, value) == after);
                if after.wf() {
                    assert forall|a: int, b: int| 0 <= a < b < entries.len() implies (
                    #[trigger] entries[a]).0 != (#[trigger] entries[b]).0 by {
                        assert(updated[a].0 != updated[b].0);
                    }
                }
            }
        },
        _ => {},
    }
}

/// Writing under one key leaves what every other key addresses untouched.
pub proof fn lemma_get_other_after_set<T>(
    held: MultiView<T>,
    key: Option<Seq<char>>,
    other: Option<Seq<char>>,
    value: T,
)
    requires
        key != other,
    ensures
        held.set(key, value).get(other) == held.get(other),
{
    match (held, key, other) {
        (MultiView::Multi(entries), Some(name), Some(other_name)) => {
            if position(entries, name) is Some {
                let i = position(entries, name)->0;
                let updated = entries.update(i, (name, value));
                assert(is_first_at(entries, name, i));
                lemma_position_by_names(entries, updated, other_name);
                if position(entries, other_name) is Some {
                    let k = position(entries, other_name)->0;
                    assert(is_first_at(entries, other_name, k));
                    assert(k != i);
                }
            }
        },
        _ => {},
    }
}

/// Reading through a projection of the values is projecting what is read.
pub proof fn lemma_map_values_get<T, U>(
    held: MultiView<T>,
    f: spec_fn(T) -> U,
    key: Option<Seq<char>>,
)
    ensures
        held.map_values(f).get(key) == match held.get(key) {
            Some(value) => Some(f(value)),
            None => None,
        },
{
    match (held, key) {
        (MultiView::Multi(entries), Some(name)) => {
            let mapped = Seq::new(entries.len(), |i: int| (entries[i].0, f(entries[i].1)));
            assert(held.map_values(f) == MultiView::Multi(mapped));
            lemma_position_by_names(entries, mapped, name);
        },
        _ => {},
    }
}

/// Writing and then projecting is projecting and then writing the projected
/// value.
pub proof fn lemma_map_values_set<T, U>(
    held: MultiView<T>,
    f: spec_fn(T) -> U,
    key: Option<Seq<char>>,
    value: T,
)
    ensures
        held.set(key, value).map_values(f) == held.map_values(f).set(key, f(value)),
{
    match (held, key) {
        (MultiView::Multi(entries), Some(name)) => {
            let mapped = Seq::new(entries.len(), |i: int| (entries[i].0, f(entries[i].1)));
            assert(held.map_values(f) == MultiView::Multi(mapped));
            lemma_position_by_names(entries, mapped, name);
            if position(entries, name) is Some {
                let i = position(entries, name)->0;
                assert(is_first_at(entries, name, i));
                let updated = entries.update(i, (name, value));
                let left = Seq::new(updated.len(), |j: int| (updated[j].0, f(updated[j].1)));
                assert(held.set(key, value).map_values(f) == MultiView::Multi(left));
                assert(left =~= mapped.update(i, (name, f(value))));
            }
        },
        _ => {},
    }
}

/// A structure that corresponds to another has its shape and its number of
/// values, and answers to the same keys.
pub proof fn lemma_corresponds_shape<T, U>(
    a: MultiView<T>,
    b: MultiView<U>,
    rel: spec_fn(T, U) -> bool,
    key: Option<Seq<char>>,
)
    requires
        a.corresponds(b, rel),
    ensures
        a.is_single() == b.is_single(),
        a.count() == b.count(),
        a.wf() == b.wf(),
        match (a.get(key), b.get(key)) {
            (Some(x), Some(y)) => rel(x, y),
            (None, None) => true,
            _ => false,
        },
{
    match (a, b, key) {
        (MultiView::Multi(xs), MultiView::Multi(ys), Some(name)) => {
            assert forall|i: int| 0 <= i < xs.len() implies (#[trigger] xs[i]).0 == ys[i].0 by {
                assert(ys[i].0 == xs[i].0);
            }
            lemma_position_by_names(xs, ys, name);
            if position(xs, name) is Some {
                let i = position(xs, name)->0;
                assert(is_first_at(xs, name, i));
                assert(ys[i].0 == xs[i].0 && rel(xs[i].1, ys[i].1));
            }
        },
        _ => {},
    }
    match (a, b) {
        (MultiView::Multi(xs), MultiView::Multi(ys)) => {
            if a.wf() {
                assert forall|i: int, j: int| 0 <= i < j < ys.len() implies (#[trigger] ys[i]).0 != (
                #[trigger] ys[j]).0 by {
                    assert(xs[i].0 != xs[j].0);
                }
            }
            if b.wf() {
                assert forall|i: int, j: int| 0 <= i < j < xs.len() implies (#[trigger] xs[i]).0 != (
                #[trigger] xs[j]).0 by {
                    assert(ys[i].0 != ys[j].0);
                }
            }
        },
        _ => {},
    }
}

/// Where the relation between the values forces two projections to agree,
/// corresponding structures have equal projections.
pub proof fn lemma_corresponds_projection<T, U, V>(
    a: MultiView<T>,
    b: MultiView<U>,
    rel: spec_fn(T, U) -> bool,
    f: spec_fn(T) -> V,
    g: spec_fn(U) -> V,
)
    requires
        a.corresponds(b, rel),
        forall|x: T, y: U| #[trigger] rel(x, y) ==> f(x) == g(y),
    ensures
        a.map_values(f) == b.map_values(g),
{
    match (a, b) {
        (MultiView::Multi(xs), MultiView::Multi(ys)) => {
            let fx = Seq::new(xs.len(), |i: int| (xs[i].0, f(xs[i].1)));
            let gy = Seq::new(ys.len(), |i: int| (ys[i].0, g(ys[i].1)));
            assert forall|i: int| 0 <= i < xs.len() implies fx[i] == gy[i] by {
                assert(ys[i].0 == xs[i].0 && rel(xs[i].1, ys[i].1));
            }
            assert(fx =~= gy);
        },
        _ => {},
    }
}

/// Mapping with a function that returns its argument yields an equal
/// structure.
pub proof fn lemma_map_identity<T>(a: MultiView<T>, b: MultiView<T>, rel: spec_fn(T, T) -> bool)
    requires
        a.corresponds(b, rel),
        forall|x: T, y: T| #[trigger] rel(x, y) ==> x == y,
    ensures
        a == b,
{
    match (a, b) {
        (MultiView::Multi(xs), MultiView::Multi(ys)) => {
            assert forall|i: int| 0 <= i < xs.len() implies xs[i] == ys[i] by {
                assert(ys[i].0 == xs[i].0 && rel(xs[i].1, ys[i].1));
            }
            assert(xs =~= ys);
        },
        _ => {},
    }
}

/// Finds the first entry named `name`.
pub fn find_entry<T>(entries: &Vec<(String, T)>, name: &str) -> (r: Option<usize>)
    ensures
        match r {
            Some(i) => position(entry_views(entries@), name@) == Some(i as int),
            None => position(entry_views(entries@), name@) is None,
        },
{
    let ghost model = entry_views(entries@);
    let mut i: usize = 0;
    while i < entries.len()
        invariant
            0 <= i <= entries.len(),
            model == entry_views(entries@),
            forall|j: int| 0 <= j < i ==> (#[trigger] model[j]).0 != name@,
        decreases entries.len() - i,
    {
        if str_equal(entries[i].0.as_str(), name) {
            proof {
                lemma_position_found(model, name@, i as int);
            }
            return Some(i);
        }
        i += 1;
    }
    proof {
        lemma_position_absent(model, name@);
    }
    None
}

} // verus!
