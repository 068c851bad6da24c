use vstd::prelude::*;
use vstd::std_specs::convert::FromSpecImpl;

verus! {

pub const MAX_DARK_ORE_STOCK: i32 = 9999;

pub const MAX_ESSENCE_STOCK: i32 = 999;

/// The kinds of essence.
#[derive(Clone, Copy, Debug, PartialEq, Eq, Structural, Hash)]
pub enum EssenceType {
    Fire,
    Water,
    Light,
    Electric,
}

impl EssenceType {
    /// All kinds of essence.
    pub fn variants() -> (r: [EssenceType; 4])
        ensures
            r@ == seq![EssenceType::Fire, EssenceType::Water, EssenceType::Light, EssenceType::Electric],
    {
        [EssenceType::Fire, EssenceType::Water, EssenceType::Light, EssenceType::Electric]
    }
}

/// The kinds of resources kept in stock.
#[derive(Clone, Copy, Debug, PartialEq, Eq, Structural, Hash)]
pub enum ResourceType {
    DarkOre,
    Essence(EssenceType),
}

impl From<EssenceType> for ResourceType {
    fn from(essence_type: EssenceType) -> (r: Self) {
        ResourceType::Essence(essence_type)
    }
}

impl FromSpecImpl<EssenceType> for ResourceType {
    open spec fn obeys_from_spec() -> bool {
        true
    }

    open spec fn from_spec(essence_type: EssenceType) -> Self {
        ResourceType::Essence(essence_type)
    }
}

/// An amount of one kind of essence.
#[derive(Clone, Copy, Debug, PartialEq, Eq, Structural, Hash)]
pub struct EssenceContainer {
    pub essence_type: EssenceType,
    pub amount: i32,
}

impl EssenceContainer {
    pub fn new(essence_type: EssenceType, amount: i32) -> (r: Self)
        ensures
            r.essence_type == essence_type,
            r.amount == amount,
    {
        EssenceContainer { essence_type, amount }
    }
}

/// An amount of a resource to pay.
#[derive(Clone, Copy, Debug, PartialEq, Eq, Structural, Hash)]
pub struct Cost {
    pub resource_type: ResourceType,
    pub amount: i32,
}

/// Position of a resource type in the stock.
pub open spec fn resource_index(resource_type: ResourceType) -> int {
    match resource_type {
        ResourceType::DarkOre => 0,
        ResourceType::Essence(EssenceType::Fire) => 1,
        ResourceType::Essence(EssenceType::Water) => 2,
        ResourceType::Essence(EssenceType::Light) => 3,
        ResourceType::Essence(EssenceType::Electric) => 4,
    }
}

#[derive(Clone, Copy)]
struct StockInfo {
    amount: i32,
    max_amount: i32,
}

/// The amounts of each resource the player owns, each with its maximum.
///
/// There are exactly five kinds of resources, so each has a field of its own instead of an
/// entry in a `HashMap` keyed by `ResourceType`: with a key type of this crate Verus proves
/// nothing of what a lookup returns, and a map keyed by `resource_index` would only restate
/// these five fields.
pub struct Stock {
    dark_ore: StockInfo,
    fire: StockInfo,
    water: StockInfo,
    light: StockInfo,
    electric: StockInfo,
}

/// Amounts after adding `amount` of a resource, capped at its maximum.
pub open spec fn add_amount(
    amounts: Seq<int>,
    maximums: Seq<int>,
    resource_type: ResourceType,
    amount: int,
) -> Seq<int> {
    let i = resource_index(resource_type);
    amounts.update(
        i,
        if amounts[i] + amount < maximums[i] {
            amounts[i] + amount
        } else {
            maximums[i]
        },
    )
}

/// Removing an amount the stock covers and adding it back restores the stock, as long as the
/// stock was within its maximum.
pub proof fn lemma_remove_then_add_restores(
    amounts: Seq<int>,
    maximums: Seq<int>,
    resource_type: ResourceType,
    amount: int,
)
    requires
        amounts.len() == 5,
        maximums.len() == 5,
        amount <= amounts[resource_index(resource_type)] <= maximums[resource_index(resource_type)],
    ensures
        add_amount(remove_amount(amounts, resource_type, amount), maximums, resource_type, amount)
            == amounts,
{
    let i = resource_index(resource_type);
    assert(add_amount(remove_amount(amounts, resource_type, amount), maximums, resource_type, amount)
        =~= amounts);
}

/// Amounts after paying `cost` if it can be covered; unchanged amounts otherwise.
pub open spec fn remove_amount(amounts: Seq<int>, resource_type: ResourceType, amount: int) -> Seq<int> {
    let i = resource_index(resource_type);
    if amounts[i] < amount {
        amounts
    } else {
        amounts.update(i, amounts[i] - amount)
    }
}

/// Amounts after trying to pay each cost in turn; a cost that cannot be covered at its
/// turn is skipped.
pub open spec fn remove_costs(amounts: Seq<int>, costs: Seq<Cost>) -> Seq<int>
    decreases costs.len(),
{
    if costs.len() == 0 {
        amounts
    } else {
        let before = remove_costs(amounts, costs.drop_last());
        remove_amount(before, costs.last().resource_type, costs.last().amount as int)
    }
}

/// Every amount lies between zero and its maximum.
pub open spec fn amounts_within(amounts: Seq<int>, maximums: Seq<int>) -> bool {
    &&& amounts.len() == 5
    &&& maximums.len() == 5
    &&& forall|i: int| 0 <= i < 5 ==> 0 <= #[trigger] amounts[i] <= maximums[i]
}

/// The amounts after `steps` taken in order, each adding (when its flag is set) or removing an
/// amount of a resource. Every payment is such a sequence of removals.
pub open spec fn amounts_after_steps(
    amounts: Seq<int>,
    maximums: Seq<int>,
    steps: Seq<(bool, ResourceType, int)>,
) -> Seq<int>
    decreases steps.len(),
{
    if steps.len() == 0 {
        amounts
    } else {
        let before = amounts_after_steps(amounts, maximums, steps.drop_last());
        let (adding, resource_type, amount) = steps.last();
        if adding {
            add_amount(before, maximums, resource_type, amount)
        } else {
            remove_amount(before, resource_type, amount)
        }
    }
}

/// One more step continues the sequence: the amounts after `steps` followed by `step` are
/// those after `steps`, with `step`'s addition or removal applied.
pub proof fn lemma_one_more_step(
    amounts: Seq<int>,
    maximums: Seq<int>,
    steps: Seq<(bool, ResourceType, int)>,
    step: (bool, ResourceType, int),
)
    ensures
        amounts_after_steps(amounts, maximums, steps.push(step)) == if step.0 {
            add_amount(amounts_after_steps(amounts, maximums, steps), maximums, step.1, step.2)
        } else {
            remove_amount(amounts_after_steps(amounts, maximums, steps), step.1, step.2)
        },
{
    assert(steps.push(step).drop_last() =~= steps);
}

/// Adding a non-negative amount keeps every amount between zero and its maximum.
pub proof fn lemma_add_stays_within(
    amounts: Seq<int>,
    maximums: Seq<int>,
    resource_type: ResourceType,
    amount: int,
)
    requires
        amounts_within(amounts, maximums),
        amount >= 0,
    ensures
        amounts_within(add_amount(amounts, maximums, resource_type, amount), maximums),
{
}

/// Removing a non-negative amount keeps every amount between zero and its maximum.
pub proof fn lemma_remove_stays_within(amounts: Seq<int>, maximums: Seq<int>, resource_type: ResourceType, amount: int)
    requires
        amounts_within(amounts, maximums),
        amount >= 0,
    ensures
        amounts_within(remove_amount(amounts, resource_type, amount), maximums),
{
}

/// Paying non-negative costs keeps every amount between zero and its maximum.
pub proof fn lemma_remove_costs_stays_within(amounts: Seq<int>, maximums: Seq<int>, costs: Seq<Cost>)
    requires
        amounts_within(amounts, maximums),
        forall|k: int| 0 <= k < costs.len() ==> #[trigger] costs[k].amount >= 0,
    ensures
        amounts_within(remove_costs(amounts, costs), maximums),
    decreases costs.len(),
{
    if costs.len() > 0 {
        let rest = costs.drop_last();
        assert forall|k: int| 0 <= k < rest.len() implies #[trigger] rest[k].amount >= 0 by {
            assert(rest[k] == costs[k]);
        }
        lemma_remove_costs_stays_within(amounts, maximums, rest);
        assert(costs.last() == costs[costs.len() - 1]);
        lemma_remove_stays_within(
            remove_costs(amounts, rest),
            maximums,
            costs.last().resource_type,
            costs.last().amount as int,
        );
    }
}

/// Whatever sequence of additions and removals of non-negative amounts a stock goes through,
/// every amount stays between zero and its maximum.
pub proof fn lemma_stock_stays_within(
    amounts: Seq<int>,
    maximums: Seq<int>,
    steps: Seq<(bool, ResourceType, int)>,
)
    requires
        amounts_within(amounts, maximums),
        forall|k: int| 0 <= k < steps.len() ==> #[trigger] steps[k].2 >= 0,
    ensures
        amounts_within(amounts_after_steps(amounts, maximums, steps), maximums),
    decreases steps.len(),
{
    if steps.len() > 0 {
        let rest = steps.drop_last();
        assert forall|k: int| 0 <= k < rest.len() implies #[trigger] rest[k].2 >= 0 by {
            assert(rest[k] == steps[k]);
        }
        lemma_stock_stays_within(amounts, maximums, rest);
        assert(steps.last() == steps[steps.len() - 1]);
        let before = amounts_after_steps(amounts, maximums, rest);
        let (adding, resource_type, amount) = steps.last();
        if adding {
            lemma_add_stays_within(before, maximums, resource_type, amount);
        } else {
            lemma_remove_stays_within(before, maximums, resource_type, amount);
        }
    }
}

/// Each cost taken in turn can be removed without leaving the `i32` range.
pub open spec fn removals_fit_i32(amounts: Seq<int>, costs: Seq<Cost>) -> bool {
    forall|k: int|
        0 <= k < costs.len() ==> #[trigger] remove_costs(amounts, costs.take(k))[resource_index(
            costs[k].resource_type,
        )] - costs[k].amount <= i32::MAX
}

/// Every cost, taken on its own, is covered by `amounts`.
pub open spec fn covers_each(amounts: Seq<int>, costs: Seq<Cost>) -> bool {
    forall|k: int|
        0 <= k < costs.len() ==> amounts[resource_index(#[trigger] costs[k].resource_type)]
            >= costs[k].amount
}

impl Stock {
    spec fn info_at(&self, i: int) -> StockInfo {
        if i == 0 {
            self.dark_ore
        } else if i == 1 {
            self.fire
        } else if i == 2 {
            self.water
        } else if i == 3 {
            self.light
        } else {
            self.electric
        }
    }

    /// The amount of each resource, at its `resource_index`.
    pub closed spec fn amounts(&self) -> Seq<int> {
        Seq::new(5, |i: int| self.info_at(i).amount as int)
    }

    /// The most of each resource the stock holds, at its `resource_index`.
    pub closed spec fn maximums(&self) -> Seq<int> {
        Seq::new(5, |i: int| self.info_at(i).max_amount as int)
    }

    /// Every amount lies between zero and its maximum.
    pub open spec fn spec_within(&self) -> bool {
        amounts_within(self.amounts(), self.maximums())
    }

    pub open spec fn amount(&self, resource_type: ResourceType) -> int {
        self.amounts()[resource_index(resource_type)]
    }

    pub open spec fn maximum(&self, resource_type: ResourceType) -> int {
        self.maximums()[resource_index(resource_type)]
    }

    /// Both views hold one `i32` value per resource.
    pub proof fn lemma_views(&self)
        ensures
            self.amounts().len() == 5,
            self.maximums().len() == 5,
            forall|i: int| 0 <= i < 5 ==> i32::MIN <= #[trigger] self.amounts()[i] <= i32::MAX,
            forall|i: int| 0 <= i < 5 ==> i32::MIN <= #[trigger] self.maximums()[i] <= i32::MAX,
    {
    }

    fn info(&self, resource_type: ResourceType) -> (r: StockInfo)
        ensures
            r == self.info_at(resource_index(resource_type)),
    {
        match resource_type {
            ResourceType::DarkOre => self.dark_ore,
            ResourceType::Essence(EssenceType::Fire) => self.fire,
            ResourceType::Essence(EssenceType::Water) => self.water,
            ResourceType::Essence(EssenceType::Light) => self.light,
            ResourceType::Essence(EssenceType::Electric) => self.electric,
        }
    }

    fn set_amount(&mut self, resource_type: ResourceType, amount: i32)
        ensures
            final(self).amounts() == old(self).amounts().update(
                resource_index(resource_type),
                amount as int,
            ),
            final(self).maximums() == old(self).maximums(),
    {
        match resource_type {
            ResourceType::DarkOre => self.dark_ore.amount = amount,
            ResourceType::Essence(EssenceType::Fire) => self.fire.amount = amount,
            ResourceType::Essence(EssenceType::Water) => self.water.amount = amount,
            ResourceType::Essence(EssenceType::Light) => self.light.amount = amount,
            ResourceType::Essence(EssenceType::Electric) => self.electric.amount = amount,
        }
        assert(self.amounts() =~= old(self).amounts().update(
            resource_index(resource_type),
            amount as int,
        ));
        assert(self.maximums() =~= old(self).maximums());
    }

    pub fn get(&self, resource_type: ResourceType) -> (r: i32)
        ensures
            r == self.amount(resource_type),
    {
        self.info(resource_type).amount
    }

    pub fn has(&self, resource_type: ResourceType, amount: i32) -> (r: bool)
        ensures
            r == (self.amount(resource_type) >= amount),
    {
        self.get(resource_type) >= amount
    }

    pub fn can_cover(&self, cost: &Cost) -> (r: bool)
        ensures
            r == (self.amount(cost.resource_type) >= cost.amount),
    {
        self.has(cost.resource_type, cost.amount)
    }

    /// Whether each cost, taken on its own, is covered.
    pub fn can_cover_all(&self, costs: &[Cost]) -> (r: bool)
        ensures
            r == covers_each(self.amounts(), costs@),
    {
        let mut k: usize = 0;
        while k < costs.len()
            invariant
                k <= costs@.len(),
                forall|m: int|
                    0 <= m < k ==> self.amounts()[resource_index(#[trigger] costs@[m].resource_type)]
                        >= costs@[m].amount,
            decreases costs@.len() - k,
        {
            if !self.has(costs[k].resource_type, costs[k].amount) {
                return false;
            }
            k = k + 1;
        }
        true
    }
}


impl Stock {
    /// Adds `amount`, capped at the resource's maximum.
    pub fn add(&mut self, resource_type: ResourceType, amount: i32)
        requires
            i32::MIN <= old(self).amount(resource_type) + amount <= i32::MAX,
        ensures
            final(self).amounts() == add_amount(
                old(self).amounts(),
                old(self).maximums(),
                resource_type,
                amount as int,
            ),
            final(self).maximums() == old(self).maximums(),
            old(self).spec_within() && amount >= 0 ==> final(self).spec_within(),
    {
        proof {
            if old(self).spec_within() && amount >= 0 {
                lemma_add_stays_within(old(self).amounts(), old(self).maximums(), resource_type, amount as int);
            }
        }
        let info = self.info(resource_type);
        let new_amount = info.amount + amount;
        let capped = if info.max_amount < new_amount {
            info.max_amount
        } else {
            new_amount
        };
        self.set_amount(resource_type, capped);
    }

    /// Removes `amount` if the stock covers it; reports whether it did.
    pub fn try_remove(&mut self, resource_type: ResourceType, amount: i32) -> (r: bool)
        requires
            amount <= old(self).amount(resource_type) ==> old(self).amount(resource_type) - amount
                <= i32::MAX,
        ensures
            r == (amount <= old(self).amount(resource_type)),
            final(self).amounts() == remove_amount(old(self).amounts(), resource_type, amount as int),
            final(self).maximums() == old(self).maximums(),
            old(self).spec_within() && amount >= 0 ==> final(self).spec_within(),
    {
        proof {
            if old(self).spec_within() && amount >= 0 {
                lemma_remove_stays_within(old(self).amounts(), old(self).maximums(), resource_type, amount as int);
            }
        }
        let info = self.info(resource_type);
        if info.amount < amount {
            return false;
        }
        self.set_amount(resource_type, info.amount - amount);
        true
    }

    pub fn try_pay_cost(&mut self, cost: Cost) -> (r: bool)
        requires
            cost.amount <= old(self).amount(cost.resource_type) ==> old(self).amount(
                cost.resource_type,
            ) - cost.amount <= i32::MAX,
        ensures
            r == (cost.amount <= old(self).amount(cost.resource_type)),
            final(self).amounts() == remove_amount(
                old(self).amounts(),
                cost.resource_type,
                cost.amount as int,
            ),
            final(self).maximums() == old(self).maximums(),
            old(self).spec_within() && cost.amount >= 0 ==> final(self).spec_within(),
    {
        self.try_remove(cost.resource_type, cost.amount)
    }

    /// When each cost on its own is covered, pays the costs one after the other and
    /// returns `true`; a later cost that is no longer covered is skipped. Otherwise
    /// returns `false` and pays nothing.
    pub fn try_pay_costs(&mut self, costs: &[Cost]) -> (r: bool)
        requires
            covers_each(old(self).amounts(), costs@) ==> removals_fit_i32(old(self).amounts(), costs@),
        ensures
            r == covers_each(old(self).amounts(), costs@),
            r ==> final(self).amounts() == remove_costs(old(self).amounts(), costs@),
            !r ==> final(self).amounts() == old(self).amounts(),
            final(self).maximums() == old(self).maximums(),
            old(self).spec_within() && (forall|k: int|
                0 <= k < costs@.len() ==> #[trigger] costs@[k].amount >= 0) ==> final(self).spec_within(),
    {
        proof {
            if old(self).spec_within() && (forall|k: int|
                0 <= k < costs@.len() ==> #[trigger] costs@[k].amount >= 0) {
                lemma_remove_costs_stays_within(old(self).amounts(), old(self).maximums(), costs@);
            }
        }
        if !self.can_cover_all(costs) {
            return false;
        }
        let ghost start = self.amounts();
        let ghost maxes = self.maximums();
        let mut k: usize = 0;
        while k < costs.len()
            invariant
                k <= costs@.len(),
                self.maximums() == maxes,
                removals_fit_i32(start, costs@),
                self.amounts() == remove_costs(start, costs@.take(k as int)),
            decreases costs@.len() - k,
        {
            proof {
                assert(remove_costs(start, costs@.take(k as int))[resource_index(
                    costs@[k as int].resource_type,
                )] - costs@[k as int].amount <= i32::MAX);
            }
            let cost = costs[k];
            self.try_remove(cost.resource_type, cost.amount);
            proof {
                let next = costs@.take(k + 1);
                assert(next.drop_last() =~= costs@.take(k as int));
                assert(next.last() == cost);
            }
            k = k + 1;
        }
        assert(costs@.take(costs@.len() as int) =~= costs@);
        true
    }
}

impl Default for Stock {
    fn default() -> (r: Self)
        ensures
            r.amounts() == seq![5555int, 0, 0, 0, 0],
            r.spec_within(),
            r.maximums() == seq![
                MAX_DARK_ORE_STOCK as int,
                MAX_ESSENCE_STOCK as int,
                MAX_ESSENCE_STOCK as int,
                MAX_ESSENCE_STOCK as int,
                MAX_ESSENCE_STOCK as int,
            ],
    {
        let r = Stock {
            dark_ore: StockInfo { amount: 5555, max_amount: MAX_DARK_ORE_STOCK },
            fire: StockInfo { amount: 0, max_amount: MAX_ESSENCE_STOCK },
            water: StockInfo { amount: 0, max_amount: MAX_ESSENCE_STOCK },
            light: StockInfo { amount: 0, max_amount: MAX_ESSENCE_STOCK },
            electric: StockInfo { amount: 0, max_amount: MAX_ESSENCE_STOCK },
        };
        assert(r.amounts() =~= seq![5555int, 0, 0, 0, 0]);
        assert(r.maximums() =~= seq![
            MAX_DARK_ORE_STOCK as int,
            MAX_ESSENCE_STOCK as int,
            MAX_ESSENCE_STOCK as int,
            MAX_ESSENCE_STOCK as int,
            MAX_ESSENCE_STOCK as int,
        ]);
        r
    }
}

} // verus!
