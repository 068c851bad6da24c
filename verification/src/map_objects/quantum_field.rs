use vstd::prelude::*;
use crate::grids::common::{GridCoords, GridImprint};
use crate::inventory::resources::{Cost, ResourceType, Stock, covers_each, remove_costs, removals_fit_i32};
use crate::map_objects::common::ExpeditionZone;

verus! {

broadcast use vstd::string::group_string_axioms;

/// Smallest side of a quantum field, in cells.
pub const MIN_IMPRINT_SIZE: i32 = 3;

/// Largest side of a quantum field, in cells.
pub const MAX_IMPRINT_SIZE: i32 = 6;

/// Research that one arriving expedition brings to a quantum field.
pub const EXPEDITION_RESEARCH: i32 = 1500;

/// The side selected after asking for a larger one.
pub open spec fn increased_size(size: int) -> int {
    if size < MAX_IMPRINT_SIZE {
        size + 1
    } else {
        size
    }
}

/// The side selected after asking for a smaller one.
pub open spec fn decreased_size(size: int) -> int {
    if size > MIN_IMPRINT_SIZE {
        size - 1
    } else {
        size
    }
}

/// Asking for a larger side and then a smaller one returns to the side selected before,
/// unless it was the largest; the same holds the other way round unless it was the smallest.
pub proof fn lemma_increase_then_decrease(size: int)
    requires
        MIN_IMPRINT_SIZE <= size <= MAX_IMPRINT_SIZE,
    ensures
        size < MAX_IMPRINT_SIZE ==> decreased_size(increased_size(size)) == size,
        size > MIN_IMPRINT_SIZE ==> increased_size(decreased_size(size)) == size,
        MIN_IMPRINT_SIZE <= increased_size(size) <= MAX_IMPRINT_SIZE,
        MIN_IMPRINT_SIZE <= decreased_size(size) <= MAX_IMPRINT_SIZE,
{
}

/// The side of the square quantum field that is about to be placed.
#[derive(Clone, Copy, Debug, PartialEq, Eq, Structural)]
pub struct QuantumFieldImprintSelector(i32);

impl QuantumFieldImprintSelector {
    pub closed spec fn spec_size(&self) -> i32 {
        self.0
    }

    /// The side always lies between the smallest and the largest allowed.
    pub open spec fn wf(&self) -> bool {
        MIN_IMPRINT_SIZE <= self.spec_size() <= MAX_IMPRINT_SIZE
    }

    pub fn get_size(&self) -> (r: i32)
        ensures
            r == self.spec_size(),
    {
        self.0
    }

    /// The square imprint of the selected side.
    pub fn get(&self) -> (r: GridImprint)
        ensures
            r == (GridImprint::Rectangle { width: self.spec_size(), height: self.spec_size() }),
    {
        GridImprint::Rectangle { width: self.0, height: self.0 }
    }

    /// Selects `new_size` when it lies between the smallest and the largest side allowed;
    /// otherwise keeps the selection and explains the limits.
    pub fn set(&mut self, new_size: i32) -> (r: Result<(), String>)
        ensures
            MIN_IMPRINT_SIZE <= new_size <= MAX_IMPRINT_SIZE ==> r is Ok && final(self).spec_size()
                == new_size,
            !(MIN_IMPRINT_SIZE <= new_size <= MAX_IMPRINT_SIZE) ==> (r matches Err(message)
                && message@ == "Quantum field imprint size must be between 3 and 6"@) && *final(self)
                == *old(self),
            old(self).wf() ==> final(self).wf(),
    {
        if new_size >= MIN_IMPRINT_SIZE && new_size <= MAX_IMPRINT_SIZE {
            self.0 = new_size;
            Ok(())
        } else {
            Err("Quantum field imprint size must be between 3 and 6".to_string())
        }
    }

    /// Selects the next larger side, if allowed.
    pub fn increase(&mut self) -> (r: Result<(), String>)
        requires
            old(self).wf(),
        ensures
            r is Ok == (old(self).spec_size() < MAX_IMPRINT_SIZE),
            final(self).spec_size() == increased_size(old(self).spec_size() as int),
            final(self).wf(),
    {
        self.set(self.0 + 1)
    }

    /// Selects the next smaller side, if allowed.
    pub fn decrease(&mut self) -> (r: Result<(), String>)
        requires
            old(self).wf(),
        ensures
            r is Ok == (old(self).spec_size() > MIN_IMPRINT_SIZE),
            final(self).spec_size() == decreased_size(old(self).spec_size() as int),
            final(self).wf(),
    {
        self.set(self.0 - 1)
    }
}

impl Default for QuantumFieldImprintSelector {
    fn default() -> (r: Self)
        ensures
            r.spec_size() == MIN_IMPRINT_SIZE,
    {
        QuantumFieldImprintSelector(MIN_IMPRINT_SIZE)
    }
}

/// A layer of a quantum field: the research needed to solve it, and the costs to pay after
/// solving it to finalize it.
#[derive(Clone, Debug)]
pub struct QuantumFieldLayer {
    pub value: i32,
    pub costs: Vec<Cost>,
}

/// A quantum field: layers solved one after the other by research and payment.
pub struct QuantumField {
    pub layers: Vec<QuantumFieldLayer>,
    pub current_layer: usize,
    pub current_layer_progress: i32,
}

impl QuantumField {
    /// The current layer is one of the layers, or one past the last when all are solved.
    pub open spec fn wf(&self) -> bool {
        self.current_layer <= self.layers@.len()
    }

    pub open spec fn spec_is_solved(&self) -> bool {
        self.current_layer == self.layers@.len()
    }

    /// The research needed to solve the current layer.
    pub open spec fn current_value(&self) -> i32 {
        self.layers@[self.current_layer as int].value
    }

    /// Adds `amount` of research to the current layer, without going past what it needs.
    /// A solved field is left as it is.
    pub fn progress_layer(&mut self, amount: i32)
        requires
            old(self).wf(),
            !old(self).spec_is_solved() ==> i32::MIN <= old(self).current_layer_progress + amount
                <= i32::MAX,
        ensures
            final(self).wf(),
            final(self).layers@ == old(self).layers@,
            final(self).current_layer == old(self).current_layer,
            old(self).spec_is_solved() ==> final(self).current_layer_progress == old(self).current_layer_progress,
            !old(self).spec_is_solved() ==> final(self).current_layer_progress == if old(self).current_layer_progress + amount < old(self).current_value() {
                old(self).current_layer_progress + amount
            } else {
                old(self).current_value() as int
            },
    {
        if self.is_solved() {
            return ;
        }
        let progressed = self.current_layer_progress + amount;
        let value = self.layers[self.current_layer].value;
        self.current_layer_progress = if progressed < value {
            progressed
        } else {
            value
        };
    }

    /// Moves on to the next layer with no research done. A solved field is left as it is.
    pub fn move_to_next_layer(&mut self)
        requires
            old(self).wf(),
        ensures
            final(self).wf(),
            final(self).layers@ == old(self).layers@,
            old(self).spec_is_solved() ==> final(self).current_layer == old(self).current_layer
                && final(self).current_layer_progress == old(self).current_layer_progress,
            !old(self).spec_is_solved() ==> final(self).current_layer == old(self).current_layer + 1
                && final(self).current_layer_progress == 0,
    {
        if self.is_solved() {
            return ;
        }
        assert(self.current_layer < self.layers.len());
        self.current_layer = self.current_layer + 1;
        self.current_layer_progress = 0;
    }

    /// `(research done, research needed)` for the current layer; `(0, 0)` once solved.
    pub fn get_progress_details(&self) -> (r: (i32, i32))
        requires
            self.wf(),
        ensures
            r == if self.spec_is_solved() {
                (0i32, 0i32)
            } else {
                (self.current_layer_progress, self.current_value())
            },
    {
        if self.is_solved() {
            return (0, 0);
        }
        (self.current_layer_progress, self.layers[self.current_layer].value)
    }

    /// Every layer is solved.
    pub fn is_solved(&self) -> (r: bool)
        ensures
            r == self.spec_is_solved(),
    {
        self.current_layer == self.layers.len()
    }

    /// The research done reaches what the current layer needs; the field must not be solved.
    pub fn is_current_layer_solved(&self) -> (r: bool)
        requires
            self.wf(),
            !self.spec_is_solved(),
        ensures
            r == (self.current_layer_progress >= self.current_value()),
    {
        self.current_layer_progress >= self.layers[self.current_layer].value
    }

    /// The costs to pay to finalize the current layer; none once solved.
    pub fn get_current_layer_costs(&self) -> (r: &[Cost])
        requires
            self.wf(),
        ensures
            r@ == if self.spec_is_solved() {
                Seq::<Cost>::empty()
            } else {
                self.layers@[self.current_layer as int].costs@
            },
    {
        if self.is_solved() {
            return &[];
        }
        self.layers[self.current_layer].costs.as_slice()
    }
}

/// The layers of a newly placed quantum field.
pub fn default_quantum_field_layers() -> (r: Vec<QuantumFieldLayer>)
    ensures
        r@.len() == 3,
        r@[0].value == 15000 && r@[0].costs@ == seq![
            Cost { resource_type: ResourceType::DarkOre, amount: 100 },
            Cost { resource_type: ResourceType::DarkOre, amount: 100 },
            Cost { resource_type: ResourceType::DarkOre, amount: 100 },
        ],
        r@[1].value == 30000 && r@[1].costs@ == seq![Cost { resource_type: ResourceType::DarkOre, amount: 200 }],
        r@[2].value == 45000 && r@[2].costs@ == seq![Cost { resource_type: ResourceType::DarkOre, amount: 300 }],
{
    let mut layers: Vec<QuantumFieldLayer> = Vec::new();
    layers.push(
        QuantumFieldLayer {
            value: 15000,
            costs: vec![
                Cost { resource_type: ResourceType::DarkOre, amount: 100 },
                Cost { resource_type: ResourceType::DarkOre, amount: 100 },
                Cost { resource_type: ResourceType::DarkOre, amount: 100 },
            ],
        },
    );
    layers.push(
        QuantumFieldLayer {
            value: 30000,
            costs: vec![Cost { resource_type: ResourceType::DarkOre, amount: 200 }],
        },
    );
    layers.push(
        QuantumFieldLayer {
            value: 45000,
            costs: vec![Cost { resource_type: ResourceType::DarkOre, amount: 300 }],
        },
    );
    layers
}

/// Request to place a quantum field.
#[derive(Clone, Copy, Debug, PartialEq, Eq, Structural)]
pub struct BuilderQuantumField {
    pub grid_position: GridCoords,
    pub grid_imprint: GridImprint,
}

impl BuilderQuantumField {
    pub fn new(grid_position: GridCoords, grid_imprint: GridImprint) -> (r: Self)
        ensures
            r.grid_position == grid_position,
            r.grid_imprint == grid_imprint,
    {
        BuilderQuantumField { grid_position, grid_imprint }
    }

    /// The quantum field the request places: the first of its default layers, with no
    /// research done.
    pub fn build(&self) -> (r: QuantumField)
        ensures
            r.wf(),
            r.current_layer == 0,
            r.current_layer_progress == 0,
            r.layers@.len() == 3,
            r.layers@[0].value == 15000,
            r.layers@[1].value == 30000,
            r.layers@[2].value == 45000,
    {
        QuantumField {
            layers: default_quantum_field_layers(),
            current_layer: 0,
            current_layer_progress: 0,
        }
    }
}

/// The research of `arrived` expeditions, capped at what the current layer needs.
pub open spec fn progress_after_expeditions(progress: int, value: int, arrived: nat) -> int {
    if arrived == 0 {
        progress
    } else if progress + EXPEDITION_RESEARCH * arrived < value {
        progress + EXPEDITION_RESEARCH * arrived
    } else {
        value
    }
}

/// Processes the expeditions that arrived at a quantum field: each brings its research to the
/// current layer. Returns whether the field is solved after at least one was processed.
pub fn process_expeditions(quantum_field: &mut QuantumField, expedition_zone: &mut ExpeditionZone) -> (r:
    bool)
    requires
        old(quantum_field).wf(),
        !old(quantum_field).spec_is_solved() ==> forall|k: nat|
            k < old(expedition_zone).expeditions_arrived ==> #[trigger] progress_after_expeditions(
                old(quantum_field).current_layer_progress as int,
                old(quantum_field).current_value() as int,
                k,
            ) <= i32::MAX - EXPEDITION_RESEARCH,
    ensures
        final(expedition_zone).expeditions_arrived == 0,
        final(quantum_field).wf(),
        final(quantum_field).layers@ == old(quantum_field).layers@,
        final(quantum_field).current_layer == old(quantum_field).current_layer,
        old(quantum_field).spec_is_solved() ==> final(quantum_field).current_layer_progress == old(quantum_field).current_layer_progress,
        !old(quantum_field).spec_is_solved() ==> final(quantum_field).current_layer_progress
            == progress_after_expeditions(
            old(quantum_field).current_layer_progress as int,
            old(quantum_field).current_value() as int,
            old(expedition_zone).expeditions_arrived as nat,
        ),
        !old(quantum_field).spec_is_solved() && old(expedition_zone).expeditions_arrived > 0 ==> final(quantum_field).current_layer_progress == if old(quantum_field).current_layer_progress + EXPEDITION_RESEARCH * old(expedition_zone).expeditions_arrived < old(quantum_field).current_value() {
            old(quantum_field).current_layer_progress + EXPEDITION_RESEARCH * old(expedition_zone).expeditions_arrived
        } else {
            old(quantum_field).current_value() as int
        },
        r == (old(expedition_zone).expeditions_arrived > 0 && old(quantum_field).spec_is_solved()),
{
    let ghost arrived0 = expedition_zone.expeditions_arrived as nat;
    let ghost progress0 = quantum_field.current_layer_progress as int;
    let mut solved = false;
    while expedition_zone.expeditions_arrived > 0
        invariant
            quantum_field.wf(),
            quantum_field.layers@ == old(quantum_field).layers@,
            quantum_field.current_layer == old(quantum_field).current_layer,
            arrived0 == old(expedition_zone).expeditions_arrived,
            progress0 == old(quantum_field).current_layer_progress,
            expedition_zone.expeditions_arrived <= arrived0,
            old(quantum_field).spec_is_solved() ==> quantum_field.current_layer_progress == progress0,
            !old(quantum_field).spec_is_solved() ==> quantum_field.current_layer_progress
                == progress_after_expeditions(
                progress0,
                quantum_field.current_value() as int,
                (arrived0 - expedition_zone.expeditions_arrived) as nat,
            ),
            !old(quantum_field).spec_is_solved() ==> forall|k: nat|
                k < arrived0 ==> #[trigger] progress_after_expeditions(
                    progress0,
                    quantum_field.current_value() as int,
                    k,
                ) <= i32::MAX - EXPEDITION_RESEARCH,
            solved == (expedition_zone.expeditions_arrived < arrived0 && old(quantum_field).spec_is_solved()),
        decreases expedition_zone.expeditions_arrived,
    {
        proof {
            if !old(quantum_field).spec_is_solved() {
                let done = (arrived0 - expedition_zone.expeditions_arrived) as nat;
                assert(progress_after_expeditions(
                    progress0,
                    quantum_field.current_value() as int,
                    done,
                ) <= i32::MAX - EXPEDITION_RESEARCH);
            }
        }
        expedition_zone.expeditions_arrived = expedition_zone.expeditions_arrived - 1;
        quantum_field.progress_layer(EXPEDITION_RESEARCH);
        if quantum_field.is_solved() {
            solved = true;
        }
    }
    solved
}

/// The action the info panel of a quantum field offers.
#[derive(Clone, Copy, Debug, PartialEq, Eq, Structural)]
pub enum QuantumFieldActionButton {
    Hidden,
    SendExpeditions,
    StopExpeditions,
    PayCost,
}

impl Default for QuantumFieldActionButton {
    fn default() -> (r: Self)
        ensures
            r == QuantumFieldActionButton::Hidden,
    {
        QuantumFieldActionButton::Hidden
    }
}

impl QuantumFieldActionButton {
    /// Nothing to offer on a solved field; paying once the current layer is solved; otherwise
    /// stopping expeditions sent to it, or sending them.
    pub fn for_quantum_field(quantum_field: &QuantumField, has_expedition_target_marker: bool) -> (r:
        Self)
        requires
            quantum_field.wf(),
        ensures
            r == if quantum_field.spec_is_solved() {
                QuantumFieldActionButton::Hidden
            } else if quantum_field.current_layer_progress >= quantum_field.current_value() {
                QuantumFieldActionButton::PayCost
            } else if has_expedition_target_marker {
                QuantumFieldActionButton::StopExpeditions
            } else {
                QuantumFieldActionButton::SendExpeditions
            },
    {
        if quantum_field.is_solved() {
            QuantumFieldActionButton::Hidden
        } else if quantum_field.is_current_layer_solved() {
            QuantumFieldActionButton::PayCost
        } else if has_expedition_target_marker {
            QuantumFieldActionButton::StopExpeditions
        } else {
            QuantumFieldActionButton::SendExpeditions
        }
    }
}

impl QuantumFieldActionButton {
    pub open spec fn spec_label(self) -> Option<Seq<char>> {
        match self {
            QuantumFieldActionButton::Hidden => None,
            QuantumFieldActionButton::SendExpeditions => Some("Send Expeditions"@),
            QuantumFieldActionButton::StopExpeditions => Some("Stop Expeditions"@),
            QuantumFieldActionButton::PayCost => Some("Pay Cost"@),
        }
    }

    /// The text the button shows, or `None` when the button is not displayed.
    pub fn label(&self) -> (r: Option<&'static str>)
        ensures
            match (r, self.spec_label()) {
                (Some(text), Some(expected)) => text@ == expected,
                (None, None) => true,
                _ => false,
            },
    {
        match self {
            QuantumFieldActionButton::Hidden => None,
            QuantumFieldActionButton::SendExpeditions => Some("Send Expeditions"),
            QuantumFieldActionButton::StopExpeditions => Some("Stop Expeditions"),
            QuantumFieldActionButton::PayCost => Some("Pay Cost"),
        }
    }
}

/// Paying the current layer of `field` from `stock` stays within `i32` where it happens.
pub open spec fn payment_fits(field: QuantumField, stock: Stock) -> bool {
    !field.spec_is_solved() && covers_each(
        stock.amounts(),
        field.layers@[field.current_layer as int].costs@,
    ) ==> removals_fit_i32(stock.amounts(), field.layers@[field.current_layer as int].costs@)
}

/// `after`, `stock_after` and `paid` are what paying the current layer of `before` from
/// `stock_before` gives: on a solved field nothing changes and the payment counts as made;
/// otherwise the costs are paid exactly when the stock covers each of them, and then the field
/// moves to its next layer; without payment nothing changes.
pub open spec fn layer_payment(
    before: QuantumField,
    stock_before: Stock,
    after: QuantumField,
    stock_after: Stock,
    paid: bool,
) -> bool {
    let costs = before.layers@[before.current_layer as int].costs@;
    &&& after.wf()
    &&& after.layers@ == before.layers@
    &&& stock_after.maximums() == stock_before.maximums()
    &&& before.spec_is_solved() ==> paid && stock_after.amounts() == stock_before.amounts()
        && after.current_layer == before.current_layer
    &&& !before.spec_is_solved() ==> paid == covers_each(stock_before.amounts(), costs)
    &&& !before.spec_is_solved() && paid ==> stock_after.amounts() == remove_costs(
        stock_before.amounts(),
        costs,
    ) && after.current_layer == before.current_layer + 1 && after.current_layer_progress == 0
    &&& !paid ==> stock_after.amounts() == stock_before.amounts() && after.current_layer
        == before.current_layer && after.current_layer_progress == before.current_layer_progress
}

/// Pays the costs of the current layer from `stock` when each is covered, and then moves the
/// field to its next layer. Returns whether it paid.
pub fn pay_current_layer(quantum_field: &mut QuantumField, stock: &mut Stock) -> (r: bool)
    requires
        old(quantum_field).wf(),
        payment_fits(*old(quantum_field), *old(stock)),
    ensures
        layer_payment(*old(quantum_field), *old(stock), *final(quantum_field), *final(stock), r),
{
    if stock.try_pay_costs(quantum_field.get_current_layer_costs()) {
        quantum_field.move_to_next_layer();
        true
    } else {
        false
    }
}

impl QuantumFieldActionButton {
    /// A click on the button in the info panel of the focused object, `quantum_field` being its
    /// quantum field if it has one: sending expeditions makes it their target, stopping them
    /// ends that, and paying pays the current layer of its quantum field. The button is then
    /// hidden so that one click acts once; a payment asked of an object without a quantum
    /// field does nothing. Returns whether a layer was paid, upon which the panel shows the
    /// field afresh.
    pub fn on_click(
        &mut self,
        has_expedition_target_marker: &mut bool,
        quantum_field: &mut Option<QuantumField>,
        stock: &mut Stock,
    ) -> (paid: bool)
        requires
            *old(self) == QuantumFieldActionButton::PayCost && (*old(quantum_field)) is Some ==> (*old(quantum_field))->0.wf() && payment_fits((*old(quantum_field))->0, *old(stock)),
        ensures
            *final(has_expedition_target_marker) == match *old(self) {
                QuantumFieldActionButton::SendExpeditions => true,
                QuantumFieldActionButton::StopExpeditions => false,
                _ => *old(has_expedition_target_marker),
            },
            *old(self) == QuantumFieldActionButton::PayCost && (*old(quantum_field)) is Some ==> (*final(quantum_field)) is Some && layer_payment(
                (*old(quantum_field))->0,
                *old(stock),
                (*final(quantum_field))->0,
                *final(stock),
                paid,
            ),
            !(*old(self) == QuantumFieldActionButton::PayCost && (*old(quantum_field)) is Some) ==> !paid
                && *final(quantum_field) == *old(quantum_field) && *final(stock) == *old(stock),
            *final(self) == if *old(self) == QuantumFieldActionButton::PayCost && (*old(quantum_field)) is None {
                *old(self)
            } else {
                QuantumFieldActionButton::Hidden
            },
    {
        let paid = match *self {
            QuantumFieldActionButton::SendExpeditions => {
                *has_expedition_target_marker = true;
                false
            },
            QuantumFieldActionButton::StopExpeditions => {
                *has_expedition_target_marker = false;
                false
            },
            QuantumFieldActionButton::PayCost => {
                match quantum_field {
                    Some(field) => pay_current_layer(field, stock),
                    None => {
                        return false;
                    },
                }
            },
            QuantumFieldActionButton::Hidden => false,
        };
        *self = QuantumFieldActionButton::Hidden;
        paid
    }
}

/// The arrows beside the side of the quantum field being placed.
#[derive(Clone, Copy, Debug, PartialEq, Eq, Structural)]
pub enum ArrowButton {
    Decrease,
    Increase,
}

impl ArrowButton {
    pub open spec fn spec_text(self) -> Seq<char> {
        match self {
            ArrowButton::Decrease => "<"@,
            ArrowButton::Increase => ">"@,
        }
    }

    /// The arrow's label.
    pub fn text(&self) -> (r: &'static str)
        ensures
            r@ == self.spec_text(),
    {
        match self {
            ArrowButton::Decrease => "<",
            ArrowButton::Increase => ">",
        }
    }

    /// A click on the arrow: the selected side shrinks or grows by one, within the limits.
    pub fn on_click(&self, imprint_selector: &mut QuantumFieldImprintSelector)
        requires
            old(imprint_selector).wf(),
        ensures
            final(imprint_selector).wf(),
            *self == ArrowButton::Decrease ==> final(imprint_selector).spec_size() == decreased_size(
                old(imprint_selector).spec_size() as int,
            ),
            *self == ArrowButton::Increase ==> final(imprint_selector).spec_size() == increased_size(
                old(imprint_selector).spec_size() as int,
            ),
    {
        match self {
            ArrowButton::Decrease => {
                let _ = imprint_selector.decrease();
            },
            ArrowButton::Increase => {
                let _ = imprint_selector.increase();
            },
        }
    }
}

/// The widget choosing the side of the quantum field being placed.
#[derive(Clone, Copy, Debug, PartialEq, Eq, Structural)]
pub struct GridPlacerUiForQuantumField {
    pub imprint_selector: QuantumFieldImprintSelector,
}

/// The character of the decimal digit `d`.
pub open spec fn digit_char(d: nat) -> char {
    (d + 48) as char
}

/// The decimal notation of `n`.
pub open spec fn decimal(n: nat) -> Seq<char>
    decreases n,
{
    if n < 10 {
        seq![digit_char(n)]
    } else {
        decimal(n / 10) + seq![digit_char(n % 10)]
    }
}

/// The text naming the quantum field of side `size`.
pub open spec fn imprint_label(size: nat) -> Seq<char> {
    "Quantum Field "@ + decimal(size) + "x"@ + decimal(size)
}

/// The text of the decimal digit `d`.
fn digit_str(d: usize) -> (r: &'static str)
    requires
        d < 10,
    ensures
        r@ == seq![digit_char(d as nat)],
{
    proof {
        reveal_strlit("0");
        reveal_strlit("1");
        reveal_strlit("2");
        reveal_strlit("3");
        reveal_strlit("4");
        reveal_strlit("5");
        reveal_strlit("6");
        reveal_strlit("7");
        reveal_strlit("8");
        reveal_strlit("9");
    }
    if d == 0 {
        "0"
    } else if d == 1 {
        "1"
    } else if d == 2 {
        "2"
    } else if d == 3 {
        "3"
    } else if d == 4 {
        "4"
    } else if d == 5 {
        "5"
    } else if d == 6 {
        "6"
    } else if d == 7 {
        "7"
    } else if d == 8 {
        "8"
    } else {
        "9"
    }
}

/// The decimal notation of `n`.
pub fn decimal_string(n: usize) -> (r: String)
    ensures
        r@ == decimal(n as nat),
    decreases n,
{
    let last = digit_str(n % 10);
    if n < 10 {
        String::from_str(last)
    } else {
        decimal_string(n / 10).concat(last)
    }
}

/// The text naming the layer a quantum field is at.
pub open spec fn layer_label(field: QuantumField) -> Seq<char> {
    if field.spec_is_solved() {
        "All Quantum Layers Solved"@
    } else {
        "Quantum Layer "@ + decimal((field.current_layer + 1) as nat) + "/"@ + decimal(
            field.layers@.len(),
        )
    }
}

impl QuantumField {
    /// The text of the info panel about the layers: `Quantum Layer n/m` for the `n`-th of `m`
    /// layers, or `All Quantum Layers Solved`.
    pub fn layer_text(&self) -> (r: String)
        requires
            self.wf(),
        ensures
            r@ == layer_label(*self),
    {
        if self.is_solved() {
            String::from_str("All Quantum Layers Solved")
        } else {
            let count = self.layers.len();
            assert(self.current_layer < count);
            String::from_str("Quantum Layer ").concat(
                decimal_string(self.current_layer + 1).as_str(),
            ).concat("/").concat(decimal_string(count).as_str())
        }
    }
}

impl GridPlacerUiForQuantumField {
    /// The name of the quantum field being placed, such as `Quantum Field 3x3`.
    pub fn imprint_str(&self) -> (r: String)
        requires
            self.imprint_selector.wf(),
        ensures
            r@ == imprint_label(self.imprint_selector.spec_size() as nat),
    {
        let size = self.imprint_selector.get_size();
        let side = if size == 3 {
            "3"
        } else if size == 4 {
            "4"
        } else if size == 5 {
            "5"
        } else {
            "6"
        };
        proof {
            reveal_strlit("3");
            reveal_strlit("4");
            reveal_strlit("5");
            reveal_strlit("6");
            assert(side@ == decimal(size as nat));
        }
        String::from_str("Quantum Field ").concat(side).concat("x").concat(side)
    }
}

impl Default for GridPlacerUiForQuantumField {
    fn default() -> (r: Self)
        ensures
            r.imprint_selector.spec_size() == MIN_IMPRINT_SIZE,
    {
        GridPlacerUiForQuantumField { imprint_selector: QuantumFieldImprintSelector::default() }
    }
}


/// Each expedition that arrives brings `EXPEDITION_RESEARCH` more research, capped at what the
/// layer needs: one more arrival after `arrived` adds exactly that much while it stays below
/// the layer's value, and fills the layer otherwise.
pub proof fn lemma_each_expedition_brings_its_research(progress: int, value: int, arrived: nat)
    ensures
        progress_after_expeditions(progress, value, arrived + 1) == if progress_after_expeditions(
            progress,
            value,
            arrived,
        ) + EXPEDITION_RESEARCH < value {
            progress_after_expeditions(progress, value, arrived) + EXPEDITION_RESEARCH
        } else {
            value
        },
        progress_after_expeditions(progress, value, 0) == progress,
        progress + EXPEDITION_RESEARCH < value ==> progress_after_expeditions(progress, value, 1)
            == progress + EXPEDITION_RESEARCH,
{
    assert(EXPEDITION_RESEARCH * (arrived + 1) == EXPEDITION_RESEARCH * arrived + EXPEDITION_RESEARCH)
        by (nonlinear_arith);
    assert(EXPEDITION_RESEARCH * arrived >= 0) by (nonlinear_arith);
}

/// Expeditions never bring a layer more research than it needs.
pub proof fn lemma_research_within_need(progress: int, value: int, arrived: nat)
    requires
        progress <= value,
    ensures
        progress_after_expeditions(progress, value, arrived) <= value,
        progress <= progress_after_expeditions(progress, value, arrived),
{
}

} // verus!
