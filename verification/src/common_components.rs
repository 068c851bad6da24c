use vstd::prelude::*;
use crate::inventory::resources::EssenceContainer;

verus! {

/// Hit points of a building or a unit.
pub struct Health {
    current: i32,
    max: i32,
}

/// Hit points left after losing `amount` of `current`: never below zero.
pub open spec fn decreased_health(current: int, amount: int) -> int {
    if current - amount > 0 {
        current - amount
    } else {
        0
    }
}

/// Damage never leaves negative health, and health runs out exactly when the damage reaches
/// what was left (for a living unit).
pub proof fn lemma_decrease_kills(current: int, amount: int)
    requires
        current > 0,
    ensures
        decreased_health(current, amount) >= 0,
        (decreased_health(current, amount) <= 0) == (amount >= current),
{
}

/// Hit points left of `max` after losing each of `amounts` in turn.
pub open spec fn health_after(max: int, amounts: Seq<int>) -> int
    decreases amounts.len(),
{
    if amounts.len() == 0 {
        max
    } else {
        decreased_health(health_after(max, amounts.drop_last()), amounts.last())
    }
}

/// The sum of `amounts`.
pub open spec fn total_damage(amounts: Seq<int>) -> int
    decreases amounts.len(),
{
    if amounts.len() == 0 {
        0
    } else {
        total_damage(amounts.drop_last()) + amounts.last()
    }
}

/// Starting from full health `max` and losing non-negative amounts one after the other leaves
/// the maximum less all the damage, but never below zero, and never more than the maximum.
pub proof fn lemma_health_after_damage(max: int, amounts: Seq<int>)
    requires
        max >= 0,
        forall|k: int| 0 <= k < amounts.len() ==> #[trigger] amounts[k] >= 0,
    ensures
        health_after(max, amounts) == if max - total_damage(amounts) > 0 {
            max - total_damage(amounts)
        } else {
            0
        },
        0 <= health_after(max, amounts) <= max,
    decreases amounts.len(),
{
    if amounts.len() > 0 {
        let rest = amounts.drop_last();
        assert forall|k: int| 0 <= k < rest.len() implies #[trigger] rest[k] >= 0 by {
            assert(rest[k] == amounts[k]);
        }
        lemma_health_after_damage(max, rest);
        assert(amounts.last() == amounts[amounts.len() - 1]);
    }
}

/// One more hit continues the sequence: a health whose current value is what `amounts` left
/// of `max` holds, after `decrease(amount)`, what `amounts` followed by `amount` leaves.
pub proof fn lemma_health_after_one_more_hit(max: int, amounts: Seq<int>, amount: int)
    ensures
        health_after(max, amounts.push(amount)) == decreased_health(health_after(max, amounts), amount),
        total_damage(amounts.push(amount)) == total_damage(amounts) + amount,
{
    assert(amounts.push(amount).drop_last() =~= amounts);
}

impl Health {
    pub closed spec fn spec_current(&self) -> int {
        self.current as int
    }

    pub closed spec fn spec_max(&self) -> int {
        self.max as int
    }

    /// Full health: the current value equals the maximum.
    pub fn new(max: i32) -> (h: Self)
        ensures
            h.spec_current() == max,
            h.spec_max() == max,
    {
        Health { current: max, max }
    }

    pub fn get_current(&self) -> (r: i32)
        ensures
            r == self.spec_current(),
    {
        self.current
    }

    pub fn get_max(&self) -> (r: i32)
        ensures
            r == self.spec_max(),
    {
        self.max
    }

    /// Lowers the current value by `amount`, never below zero.
    pub fn decrease(&mut self, amount: i32)
        requires
            i32::MIN <= old(self).spec_current() - amount <= i32::MAX,
        ensures
            final(self).spec_current() == decreased_health(old(self).spec_current(), amount as int),
            final(self).spec_max() == old(self).spec_max(),
    {
        let lowered = self.current - amount;
        self.current = if lowered > 0 { lowered } else { 0 };
    }

    pub fn is_dead(&self) -> (r: bool)
        ensures
            r == (self.spec_current() <= 0),
    {
        self.current <= 0
    }
}

impl Default for Health {
    fn default() -> (r: Self)
        ensures
            r.spec_current() == 0,
            r.spec_max() == 0,
    {
        Health { current: 0, max: 0 }
    }
}

/// The essences a unit carries.
#[derive(Clone, Debug)]
pub struct EssencesContainer(pub Vec<EssenceContainer>);

impl EssencesContainer {
    /// A container holding the one given essence.
    pub fn from(essence_container: EssenceContainer) -> (r: Self)
        ensures
            r.0@ == seq![essence_container],
    {
        let mut essences: Vec<EssenceContainer> = Vec::new();
        essences.push(essence_container);
        EssencesContainer(essences)
    }
}

} // verus!
