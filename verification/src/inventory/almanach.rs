use vstd::prelude::*;
use crate::buildings::common_components::BuildingType;
use crate::common::UpgradeType;
use crate::grids::common::GridImprint;
use crate::inventory::resources::Cost;

verus! {

/// What the almanach knows of a kind of building.
#[derive(Debug)]
pub struct AlmanachBuildingInfo {
    pub building_type: BuildingType,
    pub name: String,
    pub cost: Vec<Cost>,
    pub grid_imprint: GridImprint,
    pub upgrades: Vec<AlmanachUpgradeInfo>,
}

/// An upgrade a kind of building offers, level by level.
#[derive(Debug)]
pub struct AlmanachUpgradeInfo {
    pub upgrade_type: UpgradeType,
    pub levels: Vec<AlmanachUpgradeLevelInfo>,
}

/// The cost of one level of an upgrade. (The value the level brings is fractional and kept
/// beside the library.)
#[derive(Debug)]
pub struct AlmanachUpgradeLevelInfo {
    pub cost: Vec<Cost>,
}

/// The description of every kind of building, at most one per kind.
///
/// The descriptions are kept in a `Vec`, with at most one per kind as the invariant, rather
/// than in a `HashMap` keyed by `BuildingType`: Verus specifies `HashMap` calls only through
/// the key's view, and with an enum of this crate as the key (derived `Eq` and `Hash`) it
/// proves nothing of what a lookup returns. Keying by an integer would need a numbering of
/// the building kinds that nothing else uses.
pub struct Almanach {
    buildings: Vec<AlmanachBuildingInfo>,
}

impl Almanach {
    /// The descriptions, in the order they were first added.
    pub closed spec fn infos(&self) -> Seq<AlmanachBuildingInfo> {
        self.buildings@
    }

    /// No kind of building is described twice.
    pub open spec fn wf(&self) -> bool {
        forall|i: int, j: int|
            0 <= i < j < self.infos().len() ==> #[trigger] self.infos()[i].building_type
                != #[trigger] self.infos()[j].building_type
    }

    /// The almanach describes `building_type`.
    pub open spec fn describes(&self, building_type: BuildingType) -> bool {
        exists|i: int|
            0 <= i < self.infos().len() && #[trigger] self.infos()[i].building_type == building_type
    }

    /// The description of `building_type`.
    pub open spec fn info_of(&self, building_type: BuildingType) -> AlmanachBuildingInfo {
        let i = choose|i: int|
            0 <= i < self.infos().len() && #[trigger] self.infos()[i].building_type == building_type;
        self.infos()[i]
    }

    /// The imprint of a kind of building.
    pub open spec fn imprint_of(&self, building_type: BuildingType) -> GridImprint {
        self.info_of(building_type).grid_imprint
    }

    /// An almanach that describes nothing yet.
    pub fn new() -> (r: Self)
        ensures
            r.wf(),
            r.infos().len() == 0,
    {
        Almanach { buildings: Vec::new() }
    }

    fn position_of(&self, building_type: BuildingType) -> (r: Option<usize>)
        requires
            self.wf(),
        ensures
            match r {
                Some(i) => i < self.infos().len() && self.infos()[i as int].building_type
                    == building_type,
                None => !self.describes(building_type),
            },
    {
        let mut i: usize = 0;
        while i < self.buildings.len()
            invariant
                i <= self.infos().len(),
                forall|k: int| 0 <= k < i ==> #[trigger] self.infos()[k].building_type != building_type,
            decreases self.infos().len() - i,
        {
            if self.buildings[i].building_type == building_type {
                return Some(i);
            }
            i = i + 1;
        }
        None
    }

    /// Whether the almanach describes `building_type`.
    pub fn has_building_info(&self, building_type: BuildingType) -> (r: bool)
        requires
            self.wf(),
        ensures
            r == self.describes(building_type),
    {
        self.position_of(building_type).is_some()
    }

    /// The description of `building_type`, which the almanach must hold.
    pub fn get_building_info(&self, building_type: BuildingType) -> (r: &AlmanachBuildingInfo)
        requires
            self.wf(),
            self.describes(building_type),
        ensures
            *r == self.info_of(building_type),
            r.building_type == building_type,
    {
        let i = self.position_of(building_type).unwrap();
        proof {
            let j = choose|j: int|
                0 <= j < self.infos().len() && #[trigger] self.infos()[j].building_type
                    == building_type;
            if j != i {
                if j < i {
                    assert(self.infos()[j].building_type != self.infos()[i as int].building_type);
                } else {
                    assert(self.infos()[i as int].building_type != self.infos()[j].building_type);
                }
            }
        }
        &self.buildings[i]
    }

    /// Adds the description of a kind of building, replacing the one it had.
    pub fn add_building_info(&mut self, building_info: AlmanachBuildingInfo)
        requires
            old(self).wf(),
        ensures
            final(self).wf(),
            final(self).describes(building_info.building_type),
            final(self).info_of(building_info.building_type) == building_info,
            forall|bt: BuildingType|
                bt != building_info.building_type ==> #[trigger] final(self).describes(bt)
                    == old(self).describes(bt),
            forall|bt: BuildingType|
                bt != building_info.building_type && old(self).describes(bt)
                    ==> #[trigger] final(self).info_of(bt) == old(self).info_of(bt),
    {
        let ghost info = building_info;
        let bt0 = building_info.building_type;
        let ghost old_infos = self.infos();
        match self.position_of(building_info.building_type) {
            Some(i) => {
                self.buildings.set(i, building_info);
                proof {
                    assert(self.infos() == old_infos.update(i as int, info));
                    assert forall|x: int| 0 <= x < self.infos().len() implies #[trigger] self.infos()[x].building_type
                        == old_infos[x].building_type by {
                        if x == i {
                            assert(old_infos[x].building_type == info.building_type);
                        }
                    }
                    assert(self.wf()) by {
                        assert forall|a: int, b: int|
                            0 <= a < b < self.infos().len() implies #[trigger] self.infos()[a].building_type
                            != #[trigger] self.infos()[b].building_type by {
                            assert(old_infos[a].building_type != old_infos[b].building_type);
                        }
                    }
                    assert(self.infos()[i as int].building_type == info.building_type);
                }
            },
            None => {
                self.buildings.push(building_info);
                proof {
                    let n = old_infos.len() as int;
                    assert(self.infos() == old_infos.push(info));
                    assert(self.infos()[n].building_type == info.building_type);
                    assert(self.wf()) by {
                        assert forall|a: int, b: int|
                            0 <= a < b < self.infos().len() implies #[trigger] self.infos()[a].building_type
                            != #[trigger] self.infos()[b].building_type by {
                            if b == n {
                                assert(old_infos[a].building_type == self.infos()[a].building_type);
                                if old_infos[a].building_type == info.building_type {
                                    assert(old(self).describes(info.building_type));
                                }
                            } else {
                                assert(old_infos[a].building_type != old_infos[b].building_type);
                            }
                        }
                    }
                }
            },
        }
        proof {
            let fin = self.infos();
            assert forall|bt: BuildingType| bt != bt0 implies (self.describes(bt) == old(
                self,
            ).describes(bt)) && (old(self).describes(bt) ==> self.info_of(bt) == old(self).info_of(
                bt,
            )) by {
                assert(bt0 == info.building_type);
                if old(self).describes(bt) {
                    let j = choose|j: int|
                        0 <= j < old_infos.len() && #[trigger] old_infos[j].building_type == bt;
                    assert(fin[j] == old_infos[j]);
                    assert(fin[j].building_type == bt);
                    let k = choose|k: int| 0 <= k < fin.len() && #[trigger] fin[k].building_type == bt;
                    if k != j {
                        if k < j {
                            assert(fin[k].building_type != fin[j].building_type);
                        } else {
                            assert(fin[j].building_type != fin[k].building_type);
                        }
                    }
                }
                if self.describes(bt) {
                    let k = choose|k: int| 0 <= k < fin.len() && #[trigger] fin[k].building_type == bt;
                    assert(k < old_infos.len());
                    assert(fin[k] == old_infos[k]);
                    assert(old_infos[k].building_type == bt);
                }
            }
            assert(self.describes(info.building_type)) by {
                let p = choose|p: int| 0 <= p < fin.len() && fin[p] == info;
            }
            let k = choose|k: int|
                0 <= k < fin.len() && #[trigger] fin[k].building_type == info.building_type;
            let p = choose|p: int| 0 <= p < fin.len() && fin[p] == info;
            if k != p {
                if k < p {
                    assert(fin[k].building_type != fin[p].building_type);
                } else {
                    assert(fin[p].building_type != fin[k].building_type);
                }
            }
        }
    }
}

} // verus!
