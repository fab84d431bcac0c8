//! A table of components: one value per entity, kept in insertion order.

use vstd::prelude::*;
use crate::entity::Entity;

verus! {

/// One component value for each of a set of entities. The rows keep the order
/// in which they were inserted, and that is the order in which the systems
/// visit them.
pub struct Table<T> {
    keys: Vec<Entity>,
    values: Vec<T>,
}

impl<T> Table<T> {
    /// The entities of the rows, in row order.
    pub closed spec fn keys(&self) -> Seq<Entity> {
        self.keys@
    }

    /// The values of the rows, in row order.
    pub closed spec fn values(&self) -> Seq<T> {
        self.values@
    }

    /// Every row has a value and no entity has two rows.
    pub open spec fn wf(&self) -> bool {
        &&& self.keys().len() == self.values().len()
        &&& self.keys().no_duplicates()
    }

    /// Whether `e` has a row.
    pub open spec fn contains(&self, e: Entity) -> bool {
        self.keys().contains(e)
    }

    /// The value of `e`, if it has a row.
    pub open spec fn lookup(&self, e: Entity) -> Option<T> {
        lookup_in(self.keys(), self.values(), e)
    }

    /// Whether every entity of the table was handed out before `bound`.
    pub open spec fn all_below(&self, bound: u64) -> bool {
        forall|i: int| 0 <= i < self.keys().len() ==> (#[trigger] self.keys()[i]).id < bound
    }

    /// In a well-formed table the row of an entity is found by its index.
    pub proof fn lemma_lookup_at(&self, i: int)
        requires
            self.wf(),
            0 <= i < self.keys().len(),
        ensures
            self.contains(self.keys()[i]),
            self.keys().index_of(self.keys()[i]) == i,
            self.lookup(self.keys()[i]) == Some(self.values()[i]),
    {
        let e = self.keys()[i];
        assert(self.keys().contains(e));
        let j = self.keys().index_of(e);
        self.keys().index_of_first_ensures(e);
        assert(self.keys()[j] == e);
    }

    /// Replacing the value of one row leaves every other entity's value.
    pub proof fn lemma_update_keeps_others(&self, i: int, value: T)
        requires
            self.wf(),
            0 <= i < self.keys().len(),
        ensures
            lookup_in(self.keys(), self.values().update(i, value), self.keys()[i]) == Some(value),
            forall|e: Entity|
                e != self.keys()[i] ==> lookup_in(self.keys(), self.values().update(i, value), e)
                    == self.lookup(e),
    {
        self.lemma_lookup_at(i);
        assert forall|e: Entity| e != self.keys()[i] implies lookup_in(
            self.keys(),
            self.values().update(i, value),
            e,
        ) == self.lookup(e) by {
            if self.keys().contains(e) {
                let j = self.keys().index_of(e);
                assert(self.keys()[j] == e);
            }
        }
    }

    /// The empty table.
    pub fn new() -> (r: Self)
        ensures
            r.wf(),
            r.keys() == Seq::<Entity>::empty(),
            r.values() == Seq::<T>::empty(),
    {
        Table { keys: Vec::new(), values: Vec::new() }
    }

    /// The number of rows.
    pub fn len(&self) -> (n: usize)
        requires
            self.wf(),
        ensures
            n == self.keys().len(),
            n == self.values().len(),
    {
        self.keys.len()
    }

    /// The entity of row `i`.
    pub fn key_at(&self, i: usize) -> (e: Entity)
        requires
            self.wf(),
            i < self.keys().len(),
        ensures
            e == self.keys()[i as int],
    {
        self.keys[i]
    }

    /// The value of row `i`.
    pub fn value_at(&self, i: usize) -> (v: &T)
        requires
            self.wf(),
            i < self.keys().len(),
        ensures
            *v == self.values()[i as int],
    {
        &self.values[i]
    }

    /// The index of the row of `e`.
    pub fn find(&self, e: Entity) -> (r: Option<usize>)
        requires
            self.wf(),
        ensures
            match r {
                Some(i) => i < self.keys().len() && self.keys()[i as int] == e
                    && self.keys().index_of(e) == i,
                None => !self.contains(e),
            },
    {
        let mut i: usize = 0;
        while i < self.keys.len()
            invariant
                i <= self.keys@.len(),
                self.wf(),
                forall|j: int| 0 <= j < i ==> self.keys@[j] != e,
            decreases self.keys@.len() - i,
        {
            if self.keys[i] == e {
                proof {
                    self.lemma_lookup_at(i as int);
                }
                return Some(i);
            }
            i = i + 1;
        }
        None
    }

    /// Whether `e` has a row.
    pub fn has(&self, e: Entity) -> (r: bool)
        requires
            self.wf(),
        ensures
            r == self.contains(e),
    {
        self.find(e).is_some()
    }

    /// The value of `e`, if it has a row.
    pub fn get(&self, e: Entity) -> (r: Option<&T>)
        requires
            self.wf(),
        ensures
            match r {
                Some(v) => self.lookup(e) == Some(*v),
                None => self.lookup(e) is None,
            },
    {
        match self.find(e) {
            Some(i) => Some(&self.values[i]),
            None => None,
        }
    }

    /// Replaces the value of row `i` and hands back the one it held.
    pub fn replace_at(&mut self, i: usize, value: T) -> (previous: T)
        requires
            old(self).wf(),
            i < old(self).keys().len(),
        ensures
            final(self).wf(),
            final(self).keys() == old(self).keys(),
            final(self).values() == old(self).values().update(i as int, value),
            previous == old(self).values()[i as int],
    {
        self.values.push(value);
        let previous = self.values.swap_remove(i);
        assert(self.values@ =~= old(self).values@.update(i as int, value));
        previous
    }

    /// Adds a row for an entity that has none.
    pub fn push(&mut self, e: Entity, value: T)
        requires
            old(self).wf(),
            !old(self).contains(e),
        ensures
            final(self).wf(),
            final(self).keys() == old(self).keys().push(e),
            final(self).values() == old(self).values().push(value),
    {
        self.keys.push(e);
        self.values.push(value);
        assert forall|i: int, j: int|
            0 <= i < self.keys@.len() && 0 <= j < self.keys@.len() && i != j implies self.keys@[i]
                != self.keys@[j] by {
            if i < old(self).keys@.len() && j < old(self).keys@.len() {
            } else if i < old(self).keys@.len() {
                assert(old(self).keys@.contains(old(self).keys@[i]));
            } else {
                assert(old(self).keys@.contains(old(self).keys@[j]));
            }
        }
    }

    /// Sets the value of `e`: replaces the value of its row, or adds a row at
    /// the end. Hands back the value that was replaced.
    pub fn insert(&mut self, e: Entity, value: T) -> (previous: Option<T>)
        requires
            old(self).wf(),
        ensures
            final(self).wf(),
            previous == old(self).lookup(e),
            old(self).contains(e) ==> final(self).keys() == old(self).keys() && final(self).values()
                == old(self).values().update(old(self).keys().index_of(e), value),
            !old(self).contains(e) ==> final(self).keys() == old(self).keys().push(e)
                && final(self).values() == old(self).values().push(value),
            final(self).lookup(e) == Some(value),
    {
        match self.find(e) {
            Some(i) => {
                let previous = self.replace_at(i, value);
                proof {
                    self.lemma_lookup_at(i as int);
                }
                Some(previous)
            },
            None => {
                self.push(e, value);
                proof {
                    self.lemma_lookup_at(self.keys@.len() - 1);
                }
                None
            },
        }
    }

    /// Removes row `i`; the rows behind it move up.
    pub fn remove_at(&mut self, i: usize) -> (value: T)
        requires
            old(self).wf(),
            i < old(self).keys().len(),
        ensures
            final(self).wf(),
            final(self).keys() == old(self).keys().remove(i as int),
            final(self).values() == old(self).values().remove(i as int),
            value == old(self).values()[i as int],
            !final(self).contains(old(self).keys()[i as int]),
            forall|e: Entity|
                e != old(self).keys()[i as int] ==> final(self).lookup(e) == old(self).lookup(e),
    {
        let ghost before = *self;
        let _key = self.keys.remove(i);
        let value = self.values.remove(i);
        proof {
            lemma_remove_keeps_lookup(before.keys@, before.values@, i as int);
            assert forall|e: Entity| e != before.keys@[i as int] implies self.lookup(e)
                == before.lookup(e) by {}
        }
        value
    }

    /// Removes the rows that are marked, keeps the others in their order, and
    /// hands back the entities of the removed rows in row order.
    pub fn remove_marked(&mut self, marks: &Vec<bool>) -> (removed: Vec<Entity>)
        requires
            old(self).wf(),
            marks@.len() == old(self).keys().len(),
        ensures
            final(self).wf(),
            final(self).keys() == pick(old(self).keys(), marks@, false),
            final(self).values() == pick(old(self).values(), marks@, false),
            removed@ == pick(old(self).keys(), marks@, true),
            removed@.no_duplicates(),
            forall|i: int|
                0 <= i < marks@.len() ==> (marks@[i] <==> removed@.contains(
                    #[trigger] old(self).keys()[i],
                )),
            forall|i: int|
                0 <= i < marks@.len() ==> #[trigger] final(self).lookup(old(self).keys()[i]) == if marks@[i] {
                    None
                } else {
                    Some(old(self).values()[i])
                },
            forall|e: Entity| final(self).contains(e) ==> old(self).contains(e),
    {
        let ghost keys0 = self.keys@;
        let ghost values0 = self.values@;
        let mut removed: Vec<Entity> = Vec::new();
        let mut at: usize = 0;
        let mut row: usize = 0;
        let total: usize = marks.len();
        while row < total
            invariant
                keys0.len() == values0.len() == marks@.len() == total,
                row <= total,
                at <= row,
                at == pick(keys0.take(row as int), marks@.take(row as int), false).len(),
                at == pick(values0.take(row as int), marks@.take(row as int), false).len(),
                self.keys@ == pick(keys0.take(row as int), marks@.take(row as int), false)
                    + keys0.skip(row as int),
                self.values@ == pick(values0.take(row as int), marks@.take(row as int), false)
                    + values0.skip(row as int),
                removed@ == pick(keys0.take(row as int), marks@.take(row as int), true),
            decreases total - row,
        {
            proof {
                lemma_pick_step(keys0, marks@, false, row as int);
                lemma_pick_step(values0, marks@, false, row as int);
                lemma_pick_step(keys0, marks@, true, row as int);
                assert(keys0.skip(row as int)[0] == keys0[row as int]);
                assert(values0.skip(row as int)[0] == values0[row as int]);
            }
            let ghost kept_keys = pick(keys0.take(row as int), marks@.take(row as int), false);
            let ghost kept_values = pick(values0.take(row as int), marks@.take(row as int), false);
            if marks[row] {
                let key = self.keys.remove(at);
                let _value = self.values.remove(at);
                removed.push(key);
                assert(self.keys@ =~= kept_keys + keys0.skip(row + 1));
                assert(self.values@ =~= kept_values + values0.skip(row + 1));
            } else {
                assert(self.keys@ =~= kept_keys.push(keys0[row as int]) + keys0.skip(row + 1));
                assert(self.values@ =~= kept_values.push(values0[row as int]) + values0.skip(
                    row + 1,
                ));
                at = at + 1;
            }
            row = row + 1;
        }
        proof {
            assert(keys0.take(total as int) =~= keys0);
            assert(values0.take(total as int) =~= values0);
            assert(marks@.take(total as int) =~= marks@);
            assert(self.keys@ =~= pick(keys0, marks@, false));
            assert(self.values@ =~= pick(values0, marks@, false));
            lemma_pick_members(keys0, marks@, false);
            lemma_pick_members(keys0, marks@, true);
            lemma_pick_lengths(keys0, values0, marks@, false);
            assert forall|i: int| 0 <= i < marks@.len() implies #[trigger] self.lookup(keys0[i])
                == if marks@[i] {
                None
            } else {
                Some(values0[i])
            } by {
                if !marks@[i] {
                    lemma_pick_lookup(keys0, values0, marks@, i);
                }
            }
            assert forall|e: Entity| self.contains(e) implies old(self).contains(e) by {
                assert(pick(keys0, marks@, false).contains(e));
            }
        }
        removed
    }

    /// Removes the rows of the listed entities, as when those entities leave
    /// the world; the other rows keep their order. Hands back the entities
    /// whose rows were removed, in row order.
    pub fn remove_entities(&mut self, gone: &Vec<Entity>) -> (removed: Vec<Entity>)
        requires
            old(self).wf(),
        ensures
            final(self).wf(),
            final(self).keys() == pick(old(self).keys(), listed_marks(old(self).keys(), gone@), false),
            final(self).values() == pick(
                old(self).values(),
                listed_marks(old(self).keys(), gone@),
                false,
            ),
            removed@ == pick(old(self).keys(), listed_marks(old(self).keys(), gone@), true),
            forall|e: Entity| gone@.contains(e) ==> !final(self).contains(e),
            forall|e: Entity| !gone@.contains(e) ==> final(self).lookup(e) == old(self).lookup(e),
    {
        let ghost keys0 = self.keys@;
        let ghost values0 = self.values@;
        let mut marks: Vec<bool> = Vec::new();
        let total: usize = self.keys.len();
        let mut i: usize = 0;
        while i < total
            invariant
                self.wf(),
                self.keys@ == keys0,
                total == keys0.len(),
                i <= total,
                marks@.len() == i,
                forall|j: int| 0 <= j < i ==> marks@[j] == gone@.contains(keys0[j]),
            decreases total - i,
        {
            let key = self.keys[i];
            let mut found = false;
            let mut k: usize = 0;
            while k < gone.len()
                invariant
                    k <= gone@.len(),
                    found == exists|w: int| 0 <= w < k && gone@[w] == key,
                decreases gone@.len() - k,
            {
                if gone[k] == key {
                    found = true;
                }
                k = k + 1;
            }
            marks.push(found);
            i = i + 1;
        }
        assert(marks@ =~= listed_marks(keys0, gone@));
        let removed = self.remove_marked(&marks);
        proof {
            assert forall|e: Entity| gone@.contains(e) implies !self.contains(e) by {
                if self.contains(e) {
                    assert(keys0.contains(e));
                    let w = keys0.index_of(e);
                    assert(self.lookup(keys0[w]) is None);
                }
            }
            assert forall|e: Entity| !gone@.contains(e) implies self.lookup(e) == old(self).lookup(
                e,
            ) by {
                if keys0.contains(e) {
                    let w = keys0.index_of(e);
                    assert(keys0[w] == e);
                    old(self).lemma_lookup_at(w);
                    assert(self.lookup(keys0[w]) == Some(values0[w]));
                } else {
                    assert(!self.contains(e));
                }
            }
        }
        removed
    }

    /// Removes the row of `e`, if it has one, and hands back its value.
    pub fn remove(&mut self, e: Entity) -> (previous: Option<T>)
        requires
            old(self).wf(),
        ensures
            final(self).wf(),
            previous == old(self).lookup(e),
            !final(self).contains(e),
            old(self).contains(e) ==> final(self).keys() == old(self).keys().remove(
                old(self).keys().index_of(e),
            ) && final(self).values() == old(self).values().remove(old(self).keys().index_of(e)),
            !old(self).contains(e) ==> final(self).keys() == old(self).keys()
                && final(self).values() == old(self).values(),
            forall|o: Entity| o != e ==> final(self).lookup(o) == old(self).lookup(o),
    {
        match self.find(e) {
            Some(i) => Some(self.remove_at(i)),
            None => None,
        }
    }
}

/// For each row, whether its entity is among `listed`.
pub open spec fn listed_marks(keys: Seq<Entity>, listed: Seq<Entity>) -> Seq<bool> {
    Seq::new(keys.len(), |i: int| listed.contains(keys[i]))
}

/// The items of `items` whose mark is `wanted`, in order.
pub open spec fn pick<A>(items: Seq<A>, marks: Seq<bool>, wanted: bool) -> Seq<A>
    decreases items.len(),
{
    if items.len() == 0 || marks.len() != items.len() {
        Seq::empty()
    } else if marks.last() == wanted {
        pick(items.drop_last(), marks.drop_last(), wanted).push(items.last())
    } else {
        pick(items.drop_last(), marks.drop_last(), wanted)
    }
}

/// Picking from one more item appends that item if its mark is the wanted
/// one, and nothing otherwise.
pub proof fn lemma_pick_step<A>(items: Seq<A>, marks: Seq<bool>, wanted: bool, n: int)
    requires
        items.len() == marks.len(),
        0 <= n < items.len(),
    ensures
        pick(items.take(n + 1), marks.take(n + 1), wanted) == if marks[n] == wanted {
            pick(items.take(n), marks.take(n), wanted).push(items[n])
        } else {
            pick(items.take(n), marks.take(n), wanted)
        },
{
    assert(items.take(n + 1).drop_last() =~= items.take(n));
    assert(marks.take(n + 1).drop_last() =~= marks.take(n));
}

/// Every picked item is an item with the wanted mark, the picked items of a
/// sequence without duplicates have none either, and an item of such a
/// sequence is picked exactly if its mark is the wanted one.
pub proof fn lemma_pick_members<A>(items: Seq<A>, marks: Seq<bool>, wanted: bool)
    requires
        items.len() == marks.len(),
    ensures
        pick(items, marks, wanted).len() <= items.len(),
        forall|a: A| #[trigger]
            pick(items, marks, wanted).contains(a) ==> exists|i: int|
                0 <= i < items.len() && items[i] == a && marks[i] == wanted,
        forall|i: int|
            0 <= i < items.len() && marks[i] == wanted ==> pick(items, marks, wanted).contains(
                #[trigger] items[i],
            ),
        items.no_duplicates() ==> pick(items, marks, wanted).no_duplicates(),
        items.no_duplicates() ==> forall|i: int|
            0 <= i < items.len() && marks[i] != wanted ==> !pick(items, marks, wanted).contains(
                #[trigger] items[i],
            ),
    decreases items.len(),
{
    if items.len() > 0 {
        let head = items.drop_last();
        let head_marks = marks.drop_last();
        let rest = pick(head, head_marks, wanted);
        let all = pick(items, marks, wanted);
        lemma_pick_members(head, head_marks, wanted);
        let last = items.len() - 1;
        assert forall|a: A| #[trigger] all.contains(a) implies exists|i: int|
            0 <= i < items.len() && items[i] == a && marks[i] == wanted by {
            let k = choose|k: int| 0 <= k < all.len() && all[k] == a;
            if marks.last() == wanted && k == rest.len() {
                assert(items[last] == a && marks[last] == wanted);
            } else {
                assert(rest[k] == a);
                assert(rest.contains(a));
                let i = choose|i: int| 0 <= i < head.len() && head[i] == a && head_marks[i] == wanted;
                assert(items[i] == a && marks[i] == wanted);
            }
        }
        assert forall|i: int| 0 <= i < items.len() && marks[i] == wanted implies all.contains(
            #[trigger] items[i],
        ) by {
            if i == last {
                assert(all[rest.len() as int] == items[i]);
            } else {
                assert(rest.contains(head[i]));
                let k = choose|k: int| 0 <= k < rest.len() && rest[k] == head[i];
                assert(all[k] == items[i]);
            }
        }
        if items.no_duplicates() {
            assert(head.no_duplicates());
            assert forall|i: int, j: int|
                0 <= i < all.len() && 0 <= j < all.len() && i != j implies all[i] != all[j] by {
                if i < rest.len() && j < rest.len() {
                } else {
                    let inner = if i < rest.len() { i } else { j };
                    assert(rest.contains(rest[inner]));
                    let w = choose|w: int|
                        0 <= w < head.len() && head[w] == rest[inner] && head_marks[w] == wanted;
                    assert(items[w] != items[last]);
                }
            }
            assert forall|i: int| 0 <= i < items.len() && marks[i] != wanted implies !all.contains(
                #[trigger] items[i],
            ) by {
                if all.contains(items[i]) {
                    let w = choose|w: int|
                        0 <= w < items.len() && items[w] == items[i] && marks[w] == wanted;
                    assert(w != i);
                }
            }
        }
    }
}

/// Among rows without duplicate entities, the value that stays with a kept
/// entity is the one it had.
pub proof fn lemma_pick_lookup<T>(keys: Seq<Entity>, values: Seq<T>, marks: Seq<bool>, i: int)
    requires
        keys.len() == values.len(),
        keys.len() == marks.len(),
        keys.no_duplicates(),
        0 <= i < keys.len(),
        !marks[i],
    ensures
        lookup_in(pick(keys, marks, false), pick(values, marks, false), keys[i]) == Some(values[i]),
    decreases keys.len(),
{
    let last = keys.len() - 1;
    let head_keys = keys.drop_last();
    let head_values = values.drop_last();
    let head_marks = marks.drop_last();
    let picked_keys = pick(keys, marks, false);
    let picked_values = pick(values, marks, false);
    lemma_pick_members(keys, marks, false);
    lemma_pick_lengths(keys, values, marks, false);
    lemma_pick_lengths(head_keys, head_values, head_marks, false);
    assert(picked_keys.contains(keys[i]));
    let k = picked_keys.index_of(keys[i]);
    assert(picked_keys[k] == keys[i]);
    if i == last {
        let top = pick(head_keys, head_marks, false).len() as int;
        assert(picked_keys[top] == keys[i]);
        assert(k == top);
    } else {
        assert(head_keys.no_duplicates());
        lemma_pick_lookup(head_keys, head_values, head_marks, i);
        lemma_pick_members(head_keys, head_marks, false);
        let head_picked = pick(head_keys, head_marks, false);
        assert(head_picked.contains(head_keys[i]));
        let k0 = head_picked.index_of(keys[i]);
        assert(head_picked[k0] == keys[i]);
        assert(picked_keys[k0] == keys[i]);
        assert(k == k0);
    }
}

/// What is picked depends only on the items that carry the wanted mark.
pub proof fn lemma_pick_agrees<A>(a: Seq<A>, b: Seq<A>, marks: Seq<bool>, wanted: bool)
    requires
        a.len() == b.len(),
        a.len() == marks.len(),
        forall|i: int| 0 <= i < a.len() && marks[i] == wanted ==> a[i] == b[i],
    ensures
        pick(a, marks, wanted) == pick(b, marks, wanted),
    decreases a.len(),
{
    if a.len() > 0 {
        lemma_pick_agrees(a.drop_last(), b.drop_last(), marks.drop_last(), wanted);
    }
}

/// Two columns picked by the same marks have the same length.
pub proof fn lemma_pick_lengths<A, B>(a: Seq<A>, b: Seq<B>, marks: Seq<bool>, wanted: bool)
    requires
        a.len() == b.len(),
        a.len() == marks.len(),
    ensures
        pick(a, marks, wanted).len() == pick(b, marks, wanted).len(),
    decreases a.len(),
{
    if a.len() > 0 {
        lemma_pick_lengths(a.drop_last(), b.drop_last(), marks.drop_last(), wanted);
    }
}

/// What `lookup` computes, over the two columns.
pub open spec fn lookup_in<T>(keys: Seq<Entity>, values: Seq<T>, e: Entity) -> Option<T> {
    if keys.contains(e) {
        Some(values[keys.index_of(e)])
    } else {
        None
    }
}

/// Removing one row of a table without duplicates removes one entity and
/// leaves the value of every other entity as it was.
pub proof fn lemma_remove_keeps_lookup<T>(keys: Seq<Entity>, values: Seq<T>, i: int)
    requires
        keys.len() == values.len(),
        keys.no_duplicates(),
        0 <= i < keys.len(),
    ensures
        keys.remove(i).no_duplicates(),
        !keys.remove(i).contains(keys[i]),
        forall|e: Entity|
            e != keys[i] ==> lookup_in(keys.remove(i), values.remove(i), e) == lookup_in(
                keys,
                values,
                e,
            ),
{
    let rk = keys.remove(i);
    let rv = values.remove(i);
    assert forall|a: int, b: int| 0 <= a < rk.len() && 0 <= b < rk.len() && a != b implies rk[a]
        != rk[b] by {
        let a0 = if a < i { a } else { a + 1 };
        let b0 = if b < i { b } else { b + 1 };
        assert(rk[a] == keys[a0]);
        assert(rk[b] == keys[b0]);
    }
    if rk.contains(keys[i]) {
        let a = choose|a: int| 0 <= a < rk.len() && rk[a] == keys[i];
        let a0 = if a < i { a } else { a + 1 };
        assert(rk[a] == keys[a0]);
    }
    assert forall|e: Entity| e != keys[i] implies lookup_in(rk, rv, e) == lookup_in(
        keys,
        values,
        e,
    ) by {
        if keys.contains(e) {
            let j = keys.index_of(e);
            keys.index_of_first_ensures(e);
            assert(keys[j] == e);
            let j1 = if j < i { j } else { j - 1 };
            assert(rk[j1] == e);
            assert(rk.contains(e));
            let k = rk.index_of(e);
            assert(rk[k] == e);
            assert(k == j1);
            assert(rv[j1] == values[j]);
        } else {
            if rk.contains(e) {
                let a = choose|a: int| 0 <= a < rk.len() && rk[a] == e;
                let a0 = if a < i { a } else { a + 1 };
                assert(keys[a0] == e);
            }
        }
    }
}

} // verus!
