use vstd::prelude::*;
use crate::grids::base::{BaseGrid, GridVersion};

verus! {

/// A grid of fields with a plain version counter.
pub type GridBase<FieldType> = BaseGrid<FieldType, GridVersion>;

} // verus!
