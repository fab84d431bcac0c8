//! Hit points, damage and the removal of the dead.

use vstd::prelude::*;
use crate::entity::Entity;
use crate::fixed::fits_i64;
use crate::table::{pick, Table};

verus! {

/// The hit points of one entity, in fixed-point steps.
#[derive(Clone, Copy, Debug, PartialEq, Eq, Structural)]
pub struct Health {
    pub hit_points: i64,
    pub max_hit_points: i64,
}

impl Default for Health {
    fn default() -> (r: Self)
        ensures
            r.hit_points == 0,
            r.max_hit_points == 0,
    {
        Health { hit_points: 0, max_hit_points: 0 }
    }
}

impl Health {
    /// An entity is dead when it has no hit points left.
    pub open spec fn dead(&self) -> bool {
        self.hit_points <= 0
    }

    /// Full health with the given maximum.
    pub fn full(max_hit_points: i64) -> (r: Self)
        ensures
            r.hit_points == max_hit_points,
            r.max_hit_points == max_hit_points,
    {
        Health { hit_points: max_hit_points, max_hit_points }
    }

    /// Whether no hit points are left.
    pub fn is_dead(&self) -> (r: bool)
        ensures
            r == self.dead(),
    {
        self.hit_points <= 0
    }

    /// Whether `amount` can be taken without leaving the range of `i64`.
    pub fn can_take(&self, amount: i64) -> (r: bool)
        ensures
            r == fits_i64(self.hit_points - amount),
    {
        let left: i128 = self.hit_points as i128 - amount as i128;
        i64::MIN as i128 <= left && left <= i64::MAX as i128
    }

    /// Takes `amount` from the hit points. Nothing stops them at zero, and the
    /// maximum stays as it is.
    pub fn apply_damage(&mut self, amount: i64)
        requires
            fits_i64(old(self).hit_points - amount),
        ensures
            final(self).hit_points == old(self).hit_points - amount,
            final(self).max_hit_points == old(self).max_hit_points,
    {
        self.hit_points = self.hit_points - amount;
    }

    /// The health once every hit point is taken.
    pub open spec fn killed(&self) -> Health {
        Health { hit_points: 0, max_hit_points: self.max_hit_points }
    }

    /// Takes every hit point, whatever their number.
    pub fn kill(&mut self)
        ensures
            *final(self) == old(self).killed(),
    {
        self.hit_points = 0;
    }
}

/// For each row, whether its entity is dead.
pub open spec fn death_marks(values: Seq<Health>) -> Seq<bool> {
    Seq::new(values.len(), |i: int| values[i].dead())
}

/// The entities of `ledger` that are dead, in row order.
pub open spec fn dead_entities(ledger: Table<Health>) -> Seq<Entity> {
    pick(ledger.keys(), death_marks(ledger.values()), true)
}

/// Takes `amount` from the hit points of `target`.
pub fn apply_damage(ledger: &mut Table<Health>, target: Entity, amount: i64)
    requires
        old(ledger).wf(),
        old(ledger).contains(target),
        fits_i64(old(ledger).lookup(target)->Some_0.hit_points - amount),
    ensures
        final(ledger).wf(),
        final(ledger).keys() == old(ledger).keys(),
        final(ledger).values() == old(ledger).values().update(
            old(ledger).keys().index_of(target),
            Health {
                hit_points: (old(ledger).lookup(target)->Some_0.hit_points - amount) as i64,
                max_hit_points: old(ledger).lookup(target)->Some_0.max_hit_points,
            },
        ),
        final(ledger).lookup(target) == Some(
            Health {
                hit_points: (old(ledger).lookup(target)->Some_0.hit_points - amount) as i64,
                max_hit_points: old(ledger).lookup(target)->Some_0.max_hit_points,
            },
        ),
        forall|e: Entity| e != target ==> final(ledger).lookup(e) == old(ledger).lookup(e),
{
    let found = ledger.find(target);
    let i = found.unwrap();
    let mut health = *ledger.value_at(i);
    health.apply_damage(amount);
    let _previous = ledger.replace_at(i, health);
    proof {
        ledger.lemma_lookup_at(i as int);
        old(ledger).lemma_update_keeps_others(i as int, health);
    }
}

/// Whether `target` is dead.
pub fn is_dead(ledger: &Table<Health>, target: Entity) -> (r: bool)
    requires
        ledger.wf(),
        ledger.contains(target),
    ensures
        r == ledger.lookup(target)->Some_0.dead(),
{
    match ledger.get(target) {
        Some(health) => health.is_dead(),
        None => false,
    }
}

/// Removes every dead entity from the ledger and hands back the removed
/// entities, each one once, in row order. The living keep their rows and
/// their order.
pub fn apply_death(ledger: &mut Table<Health>) -> (removed: Vec<Entity>)
    requires
        old(ledger).wf(),
    ensures
        final(ledger).wf(),
        removed@ == dead_entities(*old(ledger)),
        removed@.no_duplicates(),
        final(ledger).keys() == pick(old(ledger).keys(), death_marks(old(ledger).values()), false),
        final(ledger).values() == pick(
            old(ledger).values(),
            death_marks(old(ledger).values()),
            false,
        ),
        forall|i: int|
            0 <= i < old(ledger).keys().len() ==> (old(ledger).values()[i].dead()
                <==> removed@.contains(#[trigger] old(ledger).keys()[i])),
        forall|i: int|
            0 <= i < old(ledger).keys().len() ==> #[trigger] final(ledger).lookup(
                old(ledger).keys()[i],
            ) == if old(ledger).values()[i].dead() {
                None
            } else {
                Some(old(ledger).values()[i])
            },
        dead_entities(*final(ledger)) == Seq::<Entity>::empty(),
{
    let mut marks: Vec<bool> = Vec::new();
    let mut i: usize = 0;
    let total: usize = ledger.len();
    while i < total
        invariant
            ledger.wf(),
            total == ledger.keys().len(),
            i <= total,
            marks@.len() == i,
            forall|j: int| 0 <= j < i ==> marks@[j] == ledger.values()[j].dead(),
        decreases total - i,
    {
        marks.push(ledger.value_at(i).is_dead());
        i = i + 1;
    }
    assert(marks@ =~= death_marks(ledger.values()));
    let removed = ledger.remove_marked(&marks);
    proof {
        lemma_no_dead_among_living(old(ledger).keys(), old(ledger).values());
    }
    removed
}

/// Among the rows that a sweep keeps, none is dead.
pub proof fn lemma_no_dead_among_living(keys: Seq<Entity>, values: Seq<Health>)
    requires
        keys.len() == values.len(),
    ensures
        pick(
            pick(keys, death_marks(values), false),
            death_marks(pick(values, death_marks(values), false)),
            true,
        ) == Seq::<Entity>::empty(),
{
    let living_keys = pick(keys, death_marks(values), false);
    let living = pick(values, death_marks(values), false);
    crate::table::lemma_pick_lengths(keys, values, death_marks(values), false);
    crate::table::lemma_pick_members(values, death_marks(values), false);
    crate::table::lemma_pick_members(living_keys, death_marks(living), true);
    let twice = pick(living_keys, death_marks(living), true);
    if twice.len() > 0 {
        assert(twice.contains(twice[0]));
        let i = choose|i: int|
            0 <= i < living_keys.len() && living_keys[i] == twice[0] && death_marks(living)[i]
                == true;
        assert(living.contains(living[i]));
    }
}

/// Every dead entity of a ledger is handed back by the sweep exactly once and
/// has no row afterwards, so that a second sweep hands back nothing.
pub proof fn lemma_dead_are_swept_once(ledger: Table<Health>, i: int)
    requires
        ledger.wf(),
        0 <= i < ledger.keys().len(),
        ledger.values()[i].dead(),
    ensures
        dead_entities(ledger).contains(ledger.keys()[i]),
        dead_entities(ledger).no_duplicates(),
        !pick(ledger.keys(), death_marks(ledger.values()), false).contains(ledger.keys()[i]),
        pick(
            pick(ledger.keys(), death_marks(ledger.values()), false),
            death_marks(pick(ledger.values(), death_marks(ledger.values()), false)),
            true,
        ) == Seq::<Entity>::empty(),
{
    crate::table::lemma_pick_members(ledger.keys(), death_marks(ledger.values()), true);
    crate::table::lemma_pick_members(ledger.keys(), death_marks(ledger.values()), false);
    lemma_no_dead_among_living(ledger.keys(), ledger.values());
}

} // verus!
