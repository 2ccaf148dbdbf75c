//! The one keyed collection the screens keep.
//!
//! A list rather than a hash map on purpose: nothing here ever holds more than
//! a device's worth of entries, so the linear scan costs less than hashing and
//! the order stays the order the screen produced.

use vstd::laws_eq::obeys_concrete_eq;
use vstd::prelude::*;
use vstd::std_specs::cmp::PartialEqSpec;

verus! {

/// Where `key` first stands among `entries`, or their number.
pub open spec fn position<K, V>(entries: Seq<(K, V)>, key: K) -> int
    decreases entries.len(),
{
    if entries.len() == 0 {
        0
    } else if entries[0].0 == key {
        0
    } else {
        1 + position(entries.skip(1), key)
    }
}

/// Whether `key` stands among `entries`.
pub open spec fn keeps<K, V>(entries: Seq<(K, V)>, key: K) -> bool {
    exists|i: int| 0 <= i < entries.len() && (#[trigger] entries[i]).0 == key
}

/// What `key` holds.
pub open spec fn held<K, V>(entries: Seq<(K, V)>, key: K) -> Option<V> {
    if keeps(entries, key) {
        Some(entries[position(entries, key)].1)
    } else {
        None
    }
}

/// The entries once `key` holds `value`: in its old place, or last.
pub open spec fn with<K, V>(entries: Seq<(K, V)>, key: K, value: V) -> Seq<(K, V)> {
    if keeps(entries, key) {
        entries.update(position(entries, key), (key, value))
    } else {
        entries.push((key, value))
    }
}

/// The entries once `key` is gone.
pub open spec fn without<K, V>(entries: Seq<(K, V)>, key: K) -> Seq<(K, V)> {
    entries.filter(|entry: (K, V)| entry.0 != key)
}

/// No key stands twice.
pub open spec fn unique<K, V>(entries: Seq<(K, V)>) -> bool {
    forall|i: int, j: int|
        0 <= i < j < entries.len() ==> (#[trigger] entries[i]).0 != (#[trigger] entries[j]).0
}

/// The entries whose place is marked `wanted`, in order.
pub open spec fn chosen<K, V>(entries: Seq<(K, V)>, marks: Seq<bool>, wanted: bool) -> Seq<(K, V)>
    decreases entries.len(),
{
    if entries.len() == 0 || marks.len() != entries.len() {
        Seq::empty()
    } else {
        let before = chosen(entries.drop_last(), marks.drop_last(), wanted);
        if marks.last() == wanted {
            before.push(entries.last())
        } else {
            before
        }
    }
}

/// The keys of `entries`, in order.
pub open spec fn keys<K, V>(entries: Seq<(K, V)>) -> Seq<K> {
    entries.map_values(|entry: (K, V)| entry.0)
}

/// A key that is kept stands where it is first found, and nowhere before.
pub proof fn a_key_stands_where_it_is_found<K, V>(entries: Seq<(K, V)>, key: K)
    ensures
        0 <= position(entries, key) <= entries.len(),
        keeps(entries, key) <==> position(entries, key) < entries.len(),
        position(entries, key) < entries.len() ==> entries[position(entries, key)].0 == key,
        forall|i: int|
            0 <= i < position(entries, key) ==> (#[trigger] entries[i]).0 != key,
    decreases entries.len(),
{
    if entries.len() > 0 && entries[0].0 != key {
        let rest = entries.skip(1);
        a_key_stands_where_it_is_found(rest, key);
        assert forall|i: int| 0 <= i < position(entries, key) implies (
        #[trigger] entries[i]).0 != key by {
            if i > 0 {
                assert(entries[i] == rest[i - 1]);
            }
        }
        if keeps(entries, key) {
            let i = choose|i: int| 0 <= i < entries.len() && (#[trigger] entries[i]).0 == key;
            assert(rest[i - 1] == entries[i]);
        }
        if keeps(rest, key) {
            let i = choose|i: int| 0 <= i < rest.len() && (#[trigger] rest[i]).0 == key;
            assert(entries[i + 1] == rest[i]);
        }
    }
}

/// A position is the only one where a first match can stand.
proof fn lemma_position_is<K, V>(entries: Seq<(K, V)>, key: K, at: int)
    requires
        0 <= at < entries.len(),
        entries[at].0 == key,
        forall|i: int| 0 <= i < at ==> (#[trigger] entries[i]).0 != key,
    ensures
        keeps(entries, key),
        position(entries, key) == at,
{
    a_key_stands_where_it_is_found(entries, key);
    let found = position(entries, key);
    assert(entries[at].0 == key);
    if found < at {
        assert(entries[found].0 != key);
    }
}

/// One value held against each key.
#[derive(Debug, Clone, PartialEq, Eq)]
pub struct Keyed<K, V> {
    entries: Vec<(K, V)>,
}

/// The same collection carrying no value: a set of keys.
pub type KeySet<K> = Keyed<K, ()>;

impl<K, V> View for Keyed<K, V> {
    type V = Seq<(K, V)>;

    closed spec fn view(&self) -> Seq<(K, V)> {
        self.entries@
    }
}

impl<K, V> Default for Keyed<K, V> {
    fn default() -> (book: Self)
        ensures
            book@ == Seq::<(K, V)>::empty(),
    {
        Self { entries: Vec::new() }
    }
}

impl<K: Copy + PartialEq, V> Keyed<K, V> {
    /// Where `key` stands, or the number of entries.
    fn find(&self, key: K) -> (at: usize)
        requires
            obeys_concrete_eq::<K>(),
        ensures
            at == position(self@, key),
    {
        let mut at: usize = 0;
        while at < self.entries.len()
            invariant
                obeys_concrete_eq::<K>(),
                at <= self@.len(),
                self@ == self.entries@,
                forall|i: int| 0 <= i < at ==> (#[trigger] self@[i]).0 != key,
            decreases self.entries.len() - at,
        {
            proof {
                reveal(obeys_concrete_eq);
            }
            if self.entries[at].0 == key {
                proof {
                    lemma_position_is(self@, key, at as int);
                }
                return at;
            }
            at += 1;
        }
        proof {
            a_key_stands_where_it_is_found(self@, key);
        }
        at
    }

    /// Replace what `key` holds, or record it for the first time.
    pub fn set(&mut self, key: K, value: V)
        requires
            obeys_concrete_eq::<K>(),
        ensures
            final(self)@ == with(old(self)@, key, value),
    {
        let at: usize = self.find(key);
        proof {
            a_key_stands_where_it_is_found(self@, key);
        }
        if at < self.entries.len() {
            self.entries.set(at, (key, value));
        } else {
            self.entries.push((key, value));
        }
    }

    pub fn get(&self, key: K) -> (value: Option<&V>)
        requires
            obeys_concrete_eq::<K>(),
        ensures
            value == match held(self@, key) {
                Some(value) => Some(&value),
                None => None,
            },
    {
        let at: usize = self.find(key);
        proof {
            a_key_stands_where_it_is_found(self@, key);
        }
        if at < self.entries.len() {
            Some(&self.entries[at].1)
        } else {
            None
        }
    }

    pub fn contains(&self, key: K) -> (kept: bool)
        requires
            obeys_concrete_eq::<K>(),
        ensures
            kept == keeps(self@, key),
    {
        let at: usize = self.find(key);
        proof {
            a_key_stands_where_it_is_found(self@, key);
        }
        at < self.entries.len()
    }

    pub fn remove(&mut self, key: K)
        requires
            obeys_concrete_eq::<K>(),
        ensures
            final(self)@ == without(old(self)@, key),
    {
        let ghost before = self@;
        let mut given: Vec<(K, V)> = Vec::new();
        std::mem::swap(&mut given, &mut self.entries);
        let mut kept: Vec<(K, V)> = Vec::new();
        let ghost wanted = |entry: (K, V)| entry.0 != key;
        assert(before.take(0).filter(wanted) =~= Seq::<(K, V)>::empty());
        let mut done: Ghost<int> = Ghost(0);
        assert(before.skip(0) =~= before);
        while given.len() > 0
            invariant
                obeys_concrete_eq::<K>(),
                0 <= done@ <= before.len(),
                given@ == before.skip(done@),
                kept@ == before.take(done@).filter(wanted),
                wanted == (|entry: (K, V)| entry.0 != key),
            decreases given.len(),
        {
            let entry: (K, V) = given.remove(0);
            proof {
                reveal(obeys_concrete_eq);
                assert(before.take(done@ + 1) =~= before.take(done@).push(entry));
                assert(before.take(done@ + 1).drop_last() =~= before.take(done@));
                reveal(Seq::filter);
                done@ = done@ + 1;
                assert(given@ =~= before.skip(done@));
            }
            if entry.0 != key {
                kept.push(entry);
            }
        }
        assert(before.take(done@) =~= before);
        self.entries = kept;
    }

    /// Forget every entry, so a row that went away takes its own with it.
    pub fn clear(&mut self)
        ensures
            final(self)@ == Seq::<(K, V)>::empty(),
    {
        self.entries.clear();
    }

    /// Every key with what it holds, in order.
    pub fn entries(&self) -> (entries: Vec<(K, &V)>)
        ensures
            entries@ == self@.map_values(|entry: (K, V)| (entry.0, &entry.1)),
    {
        let mut entries: Vec<(K, &V)> = Vec::new();
        for at in 0..self.entries.len()
            invariant
                self@ == self.entries@,
                entries@ == self@.take(at as int).map_values(|entry: (K, V)| (entry.0, &entry.1)),
        {
            let entry: &(K, V) = &self.entries[at];
            entries.push((entry.0, &entry.1));
            assert(entries@ =~= self@.take(at + 1).map_values(
                |entry: (K, V)| (entry.0, &entry.1),
            ));
        }
        assert(self@.take(self@.len() as int) =~= self@);
        entries
    }

    /// Remove and return every key whose value satisfies `ready`.
    pub fn take<F: Fn(&V) -> bool>(&mut self, ready: F) -> (taken: Vec<K>)
        requires
            forall|i: int|
                0 <= i < old(self)@.len() ==> call_requires(ready, (&(#[trigger] old(self)@[i]).1,)),
        ensures
            exists|marks: Seq<bool>| #[trigger]
                sorted_by(old(self)@, ready, marks) && taken@ == keys(
                    chosen(old(self)@, marks, true),
                ) && final(self)@ == chosen(old(self)@, marks, false),
    {
        let ghost before = self@;
        let mut given: Vec<(K, V)> = Vec::new();
        std::mem::swap(&mut given, &mut self.entries);
        let mut taken: Vec<K> = Vec::new();
        let mut kept: Vec<(K, V)> = Vec::new();
        let mut marks: Ghost<Seq<bool>> = Ghost(Seq::empty());
        assert(before.skip(0) =~= before);
        while given.len() > 0
            invariant
                forall|i: int|
                    0 <= i < before.len() ==> call_requires(ready, (&(#[trigger] before[i]).1,)),
                marks@.len() <= before.len(),
                given@ == before.skip(marks@.len() as int),
                sorted_by(before.take(marks@.len() as int), ready, marks@),
                taken@ == keys(chosen(before.take(marks@.len() as int), marks@, true)),
                kept@ == chosen(before.take(marks@.len() as int), marks@, false),
            decreases given.len(),
        {
            let ghost done = marks@.len() as int;
            let ghost so_far = before.take(done);
            assert(given@[0] == before[done]);
            let entry: (K, V) = given.remove(0);
            let mark: bool = ready(&entry.1);
            proof {
                let next = before.take(done + 1);
                let next_marks = marks@.push(mark);
                assert(next =~= so_far.push(entry));
                assert(next.drop_last() =~= so_far);
                assert(next_marks.drop_last() =~= marks@);
                assert forall|i: int| 0 <= i < next.len() implies call_ensures(
                    ready,
                    (&(#[trigger] next[i]).1,),
                    next_marks[i],
                ) by {
                    if i < done {
                        assert(next[i] == so_far[i]);
                    }
                }
                let chosen_next = chosen(next, next_marks, true);
                let chosen_now = chosen(so_far, marks@, true);
                if mark {
                    assert(chosen_next == chosen_now.push(entry));
                    assert(keys(chosen_next) =~= keys(chosen_now).push(entry.0));
                }
                marks@ = next_marks;
                assert(given@ =~= before.skip(marks@.len() as int));
            }
            if mark {
                taken.push(entry.0);
            } else {
                kept.push(entry);
            }
        }
        assert(before.take(marks@.len() as int) =~= before);
        self.entries = kept;
        assert(sorted_by(old(self)@, ready, marks@));
        taken
    }
}

/// One mark for each entry, each what `ready` answered for its value.
pub open spec fn sorted_by<K, V, F: Fn(&V) -> bool>(
    entries: Seq<(K, V)>,
    ready: F,
    marks: Seq<bool>,
) -> bool {
    &&& marks.len() == entries.len()
    &&& forall|i: int|
        0 <= i < entries.len() ==> call_ensures(ready, (&(#[trigger] entries[i]).1,), marks[i])
}

impl<K: Copy + PartialEq> Keyed<K, ()> {
    /// Add `key`, or drop it when it is already there.
    pub fn toggle(&mut self, key: K)
        requires
            obeys_concrete_eq::<K>(),
        ensures
            final(self)@ == if keeps(old(self)@, key) {
                without(old(self)@, key)
            } else {
                old(self)@.push((key, ()))
            },
    {
        if self.contains(key) {
            self.remove(key);
        } else {
            self.set(key, ());
        }
    }

    pub fn insert(&mut self, key: K)
        requires
            obeys_concrete_eq::<K>(),
        ensures
            final(self)@ == with(old(self)@, key, ()),
    {
        self.set(key, ());
    }
}

/// What a key holds once another entry follows the ones there are.
proof fn lemma_held_push<K, V>(entries: Seq<(K, V)>, entry: (K, V), key: K)
    ensures
        held(entries.push(entry), key) == if keeps(entries, key) {
            held(entries, key)
        } else if entry.0 == key {
            Some(entry.1)
        } else {
            None
        },
        keeps(entries.push(entry), key) == (keeps(entries, key) || entry.0 == key),
{
    let longer = entries.push(entry);
    let last = entries.len() as int;
    a_key_stands_where_it_is_found(entries, key);
    a_key_stands_where_it_is_found(longer, key);
    if keeps(entries, key) {
        let at = position(entries, key);
        assert forall|i: int| 0 <= i < at implies (#[trigger] longer[i]).0 != key by {
            assert(longer[i] == entries[i]);
        }
        assert(longer[at] == entries[at]);
        lemma_position_is(longer, key, at);
    } else {
        assert forall|i: int| 0 <= i < last implies (#[trigger] longer[i]).0 != key by {
            assert(longer[i] == entries[i]);
        }
        assert(longer[last] == entry);
        if entry.0 == key {
            lemma_position_is(longer, key, last);
        }
    }
}

/// A key is replaced rather than duplicated.
pub proof fn setting_keeps_keys_unique<K, V>(entries: Seq<(K, V)>, key: K, value: V)
    requires
        unique(entries),
    ensures
        unique(with(entries, key, value)),
        with(entries, key, value).len() == entries.len() + if keeps(entries, key) {
            0int
        } else {
            1int
        },
{
    a_key_stands_where_it_is_found(entries, key);
    let after = with(entries, key, value);
    assert forall|i: int, j: int| 0 <= i < j < after.len() implies (#[trigger] after[i]).0 != (
    #[trigger] after[j]).0 by {
        let at = position(entries, key);
        if i < entries.len() && j < entries.len() {
            assert(entries[i].0 != entries[j].0);
        }
        if i < entries.len() && j == entries.len() {
            assert(after[i] == entries[i]);
        }
    }
}

/// A key holds what was last set against it, and no other key notices.
pub proof fn what_is_set_is_held<K, V>(entries: Seq<(K, V)>, key: K, value: V, other: K)
    ensures
        held(with(entries, key, value), key) == Some(value),
        other != key ==> held(with(entries, key, value), other) == held(entries, other),
{
    let after = with(entries, key, value);
    a_key_stands_where_it_is_found(entries, key);
    a_key_stands_where_it_is_found(entries, other);
    if keeps(entries, key) {
        let at = position(entries, key);
        assert forall|i: int| 0 <= i < at implies (#[trigger] after[i]).0 != key by {
            assert(after[i] == entries[i]);
        }
        lemma_position_is(after, key, at);
        if other != key {
            a_key_stands_where_it_is_found(after, other);
            assert forall|i: int| 0 <= i < entries.len() implies (#[trigger] after[i]).0
                == entries[i].0 by {}
            if keeps(entries, other) {
                lemma_position_is(after, other, position(entries, other));
            } else {
                assert forall|i: int| 0 <= i < after.len() implies (#[trigger] after[i]).0
                    != other by {
                    assert(entries[i].0 != other);
                }
            }
        }
    } else {
        lemma_held_push(entries, (key, value), key);
        lemma_held_push(entries, (key, value), other);
    }
}

/// Removing a key forgets that key and no other.
pub proof fn removing_forgets_only_that_key<K, V>(entries: Seq<(K, V)>, key: K, other: K)
    ensures
        !keeps(without(entries, key), key),
        other != key ==> held(without(entries, key), other) == held(entries, other),
        unique(entries) ==> unique(without(entries, key)),
    decreases entries.len(),
{
    reveal(Seq::filter);
    let wanted = |entry: (K, V)| entry.0 != key;
    let left = without(entries, key);
    assert(left == entries.filter(wanted));
    if entries.len() > 0 {
        let rest = entries.drop_last();
        let last = entries.last();
        removing_forgets_only_that_key(rest, key, other);
        removing_forgets_only_that_key(rest, key, last.0);
        assert(entries =~= rest.push(last));
        lemma_held_push(rest, last, other);
        if last.0 != key {
            assert(left == without(rest, key).push(last));
            lemma_held_push(without(rest, key), last, other);
            lemma_held_push(without(rest, key), last, key);
            if unique(entries) {
                let before = without(rest, key);
                assert forall|i: int, j: int| 0 <= i < j < rest.len() implies (
                #[trigger] rest[i]).0 != (#[trigger] rest[j]).0 by {
                    assert(rest[i] == entries[i] && rest[j] == entries[j]);
                }
                assert(unique(before));
                if keeps(before, last.0) {
                    assert(keeps(rest, last.0));
                    let i = choose|i: int|
                        0 <= i < rest.len() && (#[trigger] rest[i]).0 == last.0;
                    assert(entries[i].0 != entries[entries.len() - 1].0);
                }
                assert forall|i: int, j: int| 0 <= i < j < left.len() implies (
                #[trigger] left[i]).0 != (#[trigger] left[j]).0 by {
                    if j == before.len() {
                        assert(left[i] == before[i]);
                        assert(left[j] == last);
                    } else {
                        assert(left[i] == before[i] && left[j] == before[j]);
                    }
                }
            }
        } else {
            assert(left == without(rest, key));
            if unique(entries) {
                assert forall|i: int, j: int| 0 <= i < j < rest.len() implies (
                #[trigger] rest[i]).0 != (#[trigger] rest[j]).0 by {
                    assert(rest[i] == entries[i] && rest[j] == entries[j]);
                }
            }
        }
    }
}

/// What is taken and what stays are between them exactly what was there: an
/// entry goes where its mark sends it, and no key is taken twice.
pub proof fn taking_leaves_the_rest<K, V>(entries: Seq<(K, V)>, marks: Seq<bool>, wanted: bool)
    requires
        marks.len() == entries.len(),
    ensures
        chosen(entries, marks, wanted).len() + chosen(entries, marks, !wanted).len()
            == entries.len(),
        forall|i: int|
            0 <= i < entries.len() && marks[i] == wanted ==> chosen(
                entries,
                marks,
                wanted,
            ).contains(#[trigger] entries[i]),
        forall|entry: (K, V)| #[trigger]
            chosen(entries, marks, wanted).contains(entry) ==> exists|i: int|
                0 <= i < entries.len() && marks[i] == wanted && #[trigger] entries[i] == entry,
        unique(entries) ==> unique(chosen(entries, marks, wanted)),
    decreases entries.len(),
{
    if entries.len() > 0 {
        let rest = entries.drop_last();
        let rest_marks = marks.drop_last();
        let before = chosen(rest, rest_marks, wanted);
        let after = chosen(entries, marks, wanted);
        taking_leaves_the_rest(rest, rest_marks, wanted);
        assert forall|i: int| 0 <= i < entries.len() && marks[i] == wanted implies after.contains(
            #[trigger] entries[i],
        ) by {
            if i < rest.len() {
                assert(rest[i] == entries[i] && rest_marks[i] == marks[i]);
                assert(before.contains(entries[i]));
                let j = choose|j: int| 0 <= j < before.len() && before[j] == entries[i];
                assert(after[j] == entries[i]);
            } else {
                assert(after[before.len() as int] == entries[i]);
            }
        }
        assert forall|entry: (K, V)| #[trigger] after.contains(entry) implies exists|i: int|
            0 <= i < entries.len() && marks[i] == wanted && #[trigger] entries[i] == entry by {
            let j = choose|j: int| 0 <= j < after.len() && after[j] == entry;
            if j < before.len() {
                assert(before[j] == entry);
                assert(before.contains(entry));
                let i = choose|i: int|
                    0 <= i < rest.len() && rest_marks[i] == wanted && #[trigger] rest[i] == entry;
                assert(entries[i] == entry && marks[i] == wanted);
            } else {
                assert(entries[entries.len() - 1] == entry);
            }
        }
        if unique(entries) {
            assert forall|i: int, j: int| 0 <= i < j < rest.len() implies (#[trigger] rest[i]).0
                != (#[trigger] rest[j]).0 by {
                assert(rest[i] == entries[i] && rest[j] == entries[j]);
            }
            assert(unique(before));
            assert forall|i: int, j: int| 0 <= i < j < after.len() implies (#[trigger] after[i]).0
                != (#[trigger] after[j]).0 by {
                assert(after[i] == before[i]);
                if j < before.len() {
                    assert(after[j] == before[j]);
                } else {
                    assert(before.contains(before[i]));
                    let at = choose|at: int|
                        0 <= at < rest.len() && rest_marks[at] == wanted && #[trigger] rest[at]
                            == before[i];
                    assert(entries[at] == before[i]);
                    assert(after[j] == entries[entries.len() - 1]);
                }
            }
        }
    }
}

/// A second toggle undoes the first, and neither touches another key.
pub proof fn toggling_twice_changes_nothing<K>(entries: Seq<(K, ())>, key: K, other: K)
    ensures
        ({
            let once = if keeps(entries, key) {
                without(entries, key)
            } else {
                entries.push((key, ()))
            };
            let twice = if keeps(once, key) {
                without(once, key)
            } else {
                once.push((key, ()))
            };
            &&& keeps(once, key) == !keeps(entries, key)
            &&& keeps(twice, key) == keeps(entries, key)
            &&& other != key ==> keeps(once, other) == keeps(entries, other) && keeps(twice, other)
                == keeps(entries, other)
        }),
{
    removing_forgets_only_that_key(entries, key, other);
    lemma_held_push(entries, (key, ()), key);
    lemma_held_push(entries, (key, ()), other);
    removing_forgets_only_that_key(entries.push((key, ())), key, other);
    lemma_held_push(without(entries, key), (key, ()), key);
    lemma_held_push(without(entries, key), (key, ()), other);
}

/// Setting a key leaves it where it stood, or puts it last when it is new.
pub proof fn setting_keeps_the_order<K, V>(entries: Seq<(K, V)>, key: K, value: V)
    ensures
        keeps(entries, key) ==> keys(with(entries, key, value)) == keys(entries),
        !keeps(entries, key) ==> keys(with(entries, key, value)) == keys(entries).push(key),
        forall|i: int|
            0 <= i < entries.len() && (#[trigger] entries[i]).0 != key ==> with(
                entries,
                key,
                value,
            )[i] == entries[i],
{
    a_key_stands_where_it_is_found(entries, key);
    if keeps(entries, key) {
        assert(keys(with(entries, key, value)) =~= keys(entries));
    } else {
        assert(keys(with(entries, key, value)) =~= keys(entries).push(key));
    }
}

/// What a key holds is what stands with it first.
pub proof fn a_key_holds_what_stands_with_it_first<K, V>(entries: Seq<(K, V)>, key: K) -> (at: int)
    ensures
        match held(entries, key) {
            Some(value) => {
                &&& 0 <= at < entries.len()
                &&& entries[at] == (key, value)
                &&& forall|i: int| 0 <= i < at ==> (#[trigger] entries[i]).0 != key
            },
            None => forall|i: int| 0 <= i < entries.len() ==> (#[trigger] entries[i]).0 != key,
        },
{
    a_key_stands_where_it_is_found(entries, key);
    position(entries, key)
}

/// Removing goes entry by entry and keeps the order of the rest.
pub proof fn removing_keeps_the_order<K, V>(entries: Seq<(K, V)>, entry: (K, V), key: K)
    ensures
        without(entries.push(entry), key) == if entry.0 == key {
            without(entries, key)
        } else {
            without(entries, key).push(entry)
        },
        without(Seq::<(K, V)>::empty(), key) == Seq::<(K, V)>::empty(),
{
    let kept = |other: (K, V)| other.0 != key;
    reveal(Seq::filter);
    assert(entries.push(entry).drop_last() =~= entries);
    assert(Seq::<(K, V)>::empty().filter(kept) =~= Seq::<(K, V)>::empty());
}

/// What is chosen goes entry by entry, each by its own mark, and keeps the
/// order.
pub proof fn choosing_keeps_the_order<K, V>(
    entries: Seq<(K, V)>,
    marks: Seq<bool>,
    entry: (K, V),
    mark: bool,
    wanted: bool,
)
    requires
        marks.len() == entries.len(),
    ensures
        chosen(entries.push(entry), marks.push(mark), wanted) == if mark == wanted {
            chosen(entries, marks, wanted).push(entry)
        } else {
            chosen(entries, marks, wanted)
        },
        chosen(Seq::<(K, V)>::empty(), Seq::empty(), wanted) == Seq::<(K, V)>::empty(),
{
    assert(entries.push(entry).drop_last() =~= entries);
    assert(marks.push(mark).drop_last() =~= marks);
}

} // verus!
