use vstd::prelude::*;
use nanorand::Rng;
use crate::common::Entity;
use crate::inventory::resources::{ResourceType, Stock, add_amount, resource_index};
use crate::map_objects::dark_ore::{DarkOre, DarkOreInRange};

verus! {

/// Dark ore a mining complex takes from a deposit per delivery.
pub const MINED_AMOUNT_PER_DELIVERY: i32 = 100;

/// A uniformly drawn index below `len`, from nanorand's thread-local generator.
#[verifier::external_body]
fn random_index(len: usize) -> (r: usize)
    requires
        len > 0,
    ensures
        r < len,
{
    nanorand::tls_rng().generate_range(0..len)
}

/// The deposit at position `index` among those in range, if there is one there.
pub fn ore_at(ore_in_range: &DarkOreInRange, index: usize) -> (r: Option<Entity>)
    ensures
        r == if index < ore_in_range.0@.len() {
            Some(ore_in_range.0@[index as int])
        } else {
            None::<Entity>
        },
{
    if index < ore_in_range.0.len() {
        Some(ore_in_range.0[index])
    } else {
        None
    }
}

/// The deposit a mining complex takes its next delivery from: one of the deposits in its
/// range, drawn at random; none when no deposit is in range.
pub fn choose_ore_to_mine(ore_in_range: &DarkOreInRange) -> (r: Option<Entity>)
    ensures
        ore_in_range.0@.len() == 0 ==> r is None,
        ore_in_range.0@.len() > 0 ==> (r matches Some(e) && ore_in_range.0@.contains(e)),
{
    if ore_in_range.0.len() == 0 {
        return None;
    }
    let ore_index = random_index(ore_in_range.0.len());
    let r = ore_at(ore_in_range, ore_index);
    r
}

/// The amount one delivery takes from a deposit holding `amount`.
pub open spec fn mined_amount(amount: i32) -> i32 {
    if amount < MINED_AMOUNT_PER_DELIVERY {
        amount
    } else {
        MINED_AMOUNT_PER_DELIVERY
    }
}

/// One delivery: up to a delivery's worth of ore moves from the deposit into the stock,
/// which keeps no more than its maximum.
pub fn mine_ore(stock: &mut Stock, dark_ore: &mut DarkOre)
    requires
        i32::MIN <= old(stock).amount(ResourceType::DarkOre) + mined_amount(old(dark_ore).amount)
            <= i32::MAX,
    ensures
        final(dark_ore).amount == old(dark_ore).amount - mined_amount(old(dark_ore).amount),
        final(stock).maximums() == old(stock).maximums(),
        final(stock).amounts() == add_amount(
            old(stock).amounts(),
            old(stock).maximums(),
            ResourceType::DarkOre,
            mined_amount(old(dark_ore).amount) as int,
        ),
{
    let mined = if dark_ore.amount < MINED_AMOUNT_PER_DELIVERY {
        dark_ore.amount
    } else {
        MINED_AMOUNT_PER_DELIVERY
    };
    stock.add(ResourceType::DarkOre, mined);
    dark_ore.amount = dark_ore.amount - mined;
}


/// Mining moves ore without losing any: unless the stock reaches its maximum, what the deposit
/// gives up is what the stock gains.
pub proof fn lemma_mined_ore_conserved(amounts: Seq<int>, maximums: Seq<int>, ore_amount: i32)
    requires
        amounts.len() == 5,
        maximums.len() == 5,
        amounts[resource_index(ResourceType::DarkOre)] + mined_amount(ore_amount) < maximums[resource_index(
            ResourceType::DarkOre,
        )],
    ensures
        add_amount(amounts, maximums, ResourceType::DarkOre, mined_amount(ore_amount) as int)[resource_index(
            ResourceType::DarkOre,
        )] + (ore_amount - mined_amount(ore_amount)) == amounts[resource_index(ResourceType::DarkOre)]
            + ore_amount,
        mined_amount(ore_amount) <= MINED_AMOUNT_PER_DELIVERY,
{
}

} // verus!
