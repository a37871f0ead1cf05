//! Read-only views of the host's static configuration tables.
//!
//! Each table column stores one statistic for every entry of a kind
//! (units, weapons, upgrades, technologies) as packed little-endian cells
//! of one, two or four bytes. The accessors mirror the host's layout: a
//! column knows its entry count and cell width, and a statistic is one
//! cell read from one column.

use vstd::prelude::*;

use crate::bytes::{dec_u16_at, dec_u32_at, dec_u8_at, get_u16, get_u32, get_u8};

verus! {

/// One column of a configuration table: `entries` cells of `entry_size`
/// bytes each.
pub struct DatTable {
    pub entry_size: u8,
    pub entries: u32,
    pub data: Vec<u8>,
}

/// A column is well-formed when its cell width is one the host uses and
/// its backing bytes hold exactly its cells.
pub open spec fn dat_wf(t: &DatTable) -> bool {
    &&& (t.entry_size == 1 || t.entry_size == 2 || t.entry_size == 4)
    &&& t.data@.len() == t.entries * t.entry_size
}

/// The cell at `id`, widened to 32 bits.
pub open spec fn spec_dat_get(t: &DatTable, id: u32) -> u32 {
    if t.entry_size == 1 {
        dec_u8_at(t.data@, id as int) as u32
    } else if t.entry_size == 2 {
        dec_u16_at(t.data@, id * 2) as u32
    } else {
        dec_u32_at(t.data@, id * 4)
    }
}

/// Reads the cell at `id` of one column.
pub fn dat_get(t: &DatTable, id: u32) -> (r: u32)
    requires
        dat_wf(t),
        id < t.entries,
    ensures
        r == spec_dat_get(t, id),
{
    proof {
        assert(id * 1 <= (t.entries - 1) * 1 && (id + 1) * 1 <= t.entries * 1)
            by (nonlinear_arith)
            requires id < t.entries;
        assert(id * 2 + 2 <= t.entries * 2) by (nonlinear_arith)
            requires id < t.entries;
        assert(id * 4 + 4 <= t.entries * 4) by (nonlinear_arith)
            requires id < t.entries;
    }
    let n = t.data.len();
    if t.entry_size == 1 {
        get_u8(&t.data, id as usize) as u32
    } else if t.entry_size == 2 {
        proof {
            assert(id * 2 + 2 <= n);
        }
        get_u16(&t.data, (id as usize) * 2) as u32
    } else {
        proof {
            assert(id * 4 + 4 <= n);
        }
        get_u32(&t.data, (id as usize) * 4)
    }
}

/// The unit statistics this subsystem reads.
pub struct UnitsDat {
    pub tables: Vec<DatTable>,
}

/// The table set holds at least the columns the accessors read, each
/// well-formed with a common entry count.
pub open spec fn units_dat_wf(d: &UnitsDat) -> bool {
    &&& d.tables@.len() > 46
    &&& forall|i: int| 0 <= i < d.tables@.len() ==> dat_wf(&d.tables@[i])
    &&& forall|i: int|
        0 <= i < d.tables@.len() ==> (#[trigger] d.tables@[i].entries) == d.tables@[0].entries
}

impl UnitsDat {
    pub open spec fn spec_amount(&self) -> u32 {
        self.tables@[0].entries
    }

    pub fn amount(&self) -> (r: u32)
        requires
            units_dat_wf(self),
        ensures
            r == self.spec_amount(),
    {
        self.tables[0].entries
    }

    pub fn get(&self, index: usize, id: u16) -> (r: u32)
        requires
            units_dat_wf(self),
            index < self.tables@.len(),
            (id as u32) < self.spec_amount(),
        ensures
            r == spec_dat_get(&self.tables@[index as int], id as u32),
    {
        dat_get(&self.tables[index], id as u32)
    }

    pub fn hitpoints(&self, id: u16) -> (r: i32)
        requires
            units_dat_wf(self),
            (id as u32) < self.spec_amount(),
        ensures
            r == spec_dat_get(&self.tables@[8], id as u32) as i32,
    {
        self.get(8, id) as i32
    }

    /// Shields are stored as displayed, so the live value is 256 times the
    /// cell.
    pub fn shields(&self, id: u16) -> (r: i32)
        requires
            units_dat_wf(self),
            (id as u32) < self.spec_amount(),
            spec_dat_get(&self.tables@[7], id as u32) <= 0x7f_ffff,
        ensures
            r == spec_dat_get(&self.tables@[7], id as u32) * 256,
    {
        (self.get(7, id) as i32) * 256
    }

    pub fn has_shields(&self, id: u16) -> (r: u32)
        requires
            units_dat_wf(self),
            (id as u32) < self.spec_amount(),
        ensures
            r == spec_dat_get(&self.tables@[6], id as u32),
    {
        self.get(6, id)
    }

    pub fn ground_weapon(&self, id: u16) -> (r: u32)
        requires
            units_dat_wf(self),
            (id as u32) < self.spec_amount(),
        ensures
            r == spec_dat_get(&self.tables@[17], id as u32),
    {
        self.get(17, id)
    }

    pub fn air_weapon(&self, id: u16) -> (r: u32)
        requires
            units_dat_wf(self),
            (id as u32) < self.spec_amount(),
        ensures
            r == spec_dat_get(&self.tables@[19], id as u32),
    {
        self.get(19, id)
    }

    pub fn flags(&self, id: u16) -> (r: u32)
        requires
            units_dat_wf(self),
            (id as u32) < self.spec_amount(),
        ensures
            r == spec_dat_get(&self.tables@[22], id as u32),
    {
        self.get(22, id)
    }

    pub fn group_flags(&self, id: u16) -> (r: u32)
        requires
            units_dat_wf(self),
            (id as u32) < self.spec_amount(),
        ensures
            r == spec_dat_get(&self.tables@[44], id as u32),
    {
        self.get(44, id)
    }

    pub fn armor(&self, id: u16) -> (r: u32)
        requires
            units_dat_wf(self),
            (id as u32) < self.spec_amount(),
        ensures
            r == spec_dat_get(&self.tables@[27], id as u32),
    {
        self.get(27, id)
    }

    pub fn armor_upgrade(&self, id: u16) -> (r: u32)
        requires
            units_dat_wf(self),
            (id as u32) < self.spec_amount(),
        ensures
            r == spec_dat_get(&self.tables@[25], id as u32),
    {
        self.get(25, id)
    }

    pub fn mineral_cost(&self, id: u16) -> (r: u32)
        requires
            units_dat_wf(self),
            (id as u32) < self.spec_amount(),
        ensures
            r == spec_dat_get(&self.tables@[40], id as u32),
    {
        self.get(40, id)
    }

    pub fn gas_cost(&self, id: u16) -> (r: u32)
        requires
            units_dat_wf(self),
            (id as u32) < self.spec_amount(),
        ensures
            r == spec_dat_get(&self.tables@[41], id as u32),
    {
        self.get(41, id)
    }

    pub fn build_time(&self, id: u16) -> (r: u32)
        requires
            units_dat_wf(self),
            (id as u32) < self.spec_amount(),
        ensures
            r == spec_dat_get(&self.tables@[42], id as u32),
    {
        self.get(42, id)
    }

    pub fn supply_cost(&self, id: u16) -> (r: u32)
        requires
            units_dat_wf(self),
            (id as u32) < self.spec_amount(),
        ensures
            r == spec_dat_get(&self.tables@[46], id as u32),
    {
        self.get(46, id)
    }
}

/// The weapon statistics this subsystem reads.
pub struct WeaponsDat {
    pub tables: Vec<DatTable>,
}

pub open spec fn weapons_dat_wf(d: &WeaponsDat) -> bool {
    &&& d.tables@.len() > 17
    &&& forall|i: int| 0 <= i < d.tables@.len() ==> dat_wf(&d.tables@[i])
    &&& forall|i: int|
        0 <= i < d.tables@.len() ==> (#[trigger] d.tables@[i].entries) == d.tables@[0].entries
}

impl WeaponsDat {
    pub open spec fn spec_amount(&self) -> u32 {
        self.tables@[0].entries
    }

    pub fn amount(&self) -> (r: u32)
        requires
            weapons_dat_wf(self),
        ensures
            r == self.spec_amount(),
    {
        self.tables[0].entries
    }

    pub fn get(&self, index: usize, id: u32) -> (r: u32)
        requires
            weapons_dat_wf(self),
            index < self.tables@.len(),
            id < self.spec_amount(),
        ensures
            r == spec_dat_get(&self.tables@[index as int], id),
    {
        dat_get(&self.tables[index], id)
    }

    pub fn damage(&self, id: u32) -> (r: u32)
        requires
            weapons_dat_wf(self),
            id < self.spec_amount(),
        ensures
            r == spec_dat_get(&self.tables@[14], id),
    {
        self.get(14, id)
    }

    pub fn upgrade(&self, id: u32) -> (r: u32)
        requires
            weapons_dat_wf(self),
            id < self.spec_amount(),
        ensures
            r == spec_dat_get(&self.tables@[6], id),
    {
        self.get(6, id)
    }

    pub fn bonus(&self, id: u32) -> (r: u32)
        requires
            weapons_dat_wf(self),
            id < self.spec_amount(),
        ensures
            r == spec_dat_get(&self.tables@[15], id),
    {
        self.get(15, id)
    }

    pub fn factor(&self, id: u32) -> (r: u32)
        requires
            weapons_dat_wf(self),
            id < self.spec_amount(),
        ensures
            r == spec_dat_get(&self.tables@[17], id),
    {
        self.get(17, id)
    }

    pub fn label(&self, id: u32) -> (r: u32)
        requires
            weapons_dat_wf(self),
            id < self.spec_amount(),
        ensures
            r == spec_dat_get(&self.tables@[0], id),
    {
        self.get(0, id)
    }
}

/// The upgrade statistics this subsystem reads.
pub struct UpgradesDat {
    pub tables: Vec<DatTable>,
}

pub open spec fn upgrades_dat_wf(d: &UpgradesDat) -> bool {
    &&& d.tables@.len() > 10
    &&& forall|i: int| 0 <= i < d.tables@.len() ==> dat_wf(&d.tables@[i])
    &&& forall|i: int|
        0 <= i < d.tables@.len() ==> (#[trigger] d.tables@[i].entries) == d.tables@[0].entries
}

impl UpgradesDat {
    pub open spec fn spec_amount(&self) -> u32 {
        self.tables@[0].entries
    }

    pub fn amount(&self) -> (r: u32)
        requires
            upgrades_dat_wf(self),
        ensures
            r == self.spec_amount(),
    {
        self.tables[0].entries
    }

    pub fn get(&self, index: usize, id: u32) -> (r: u32)
        requires
            upgrades_dat_wf(self),
            index < self.tables@.len(),
            id < self.spec_amount(),
        ensures
            r == spec_dat_get(&self.tables@[index as int], id),
    {
        dat_get(&self.tables[index], id)
    }

    pub fn label(&self, id: u32) -> (r: u32)
        requires
            upgrades_dat_wf(self),
            id < self.spec_amount(),
        ensures
            r == spec_dat_get(&self.tables@[8], id),
    {
        self.get(8, id)
    }

    pub fn mineral_cost(&self, id: u32) -> (r: u32)
        requires
            upgrades_dat_wf(self),
            id < self.spec_amount(),
        ensures
            r == spec_dat_get(&self.tables@[0], id),
    {
        self.get(0, id)
    }

    pub fn gas_cost(&self, id: u32) -> (r: u32)
        requires
            upgrades_dat_wf(self),
            id < self.spec_amount(),
        ensures
            r == spec_dat_get(&self.tables@[2], id),
    {
        self.get(2, id)
    }

    pub fn time(&self, id: u32) -> (r: u32)
        requires
            upgrades_dat_wf(self),
            id < self.spec_amount(),
        ensures
            r == spec_dat_get(&self.tables@[4], id),
    {
        self.get(4, id)
    }

    pub fn mineral_factor(&self, id: u32) -> (r: u32)
        requires
            upgrades_dat_wf(self),
            id < self.spec_amount(),
        ensures
            r == spec_dat_get(&self.tables@[1], id),
    {
        self.get(1, id)
    }

    pub fn gas_factor(&self, id: u32) -> (r: u32)
        requires
            upgrades_dat_wf(self),
            id < self.spec_amount(),
        ensures
            r == spec_dat_get(&self.tables@[3], id),
    {
        self.get(3, id)
    }

    pub fn time_factor(&self, id: u32) -> (r: u32)
        requires
            upgrades_dat_wf(self),
            id < self.spec_amount(),
        ensures
            r == spec_dat_get(&self.tables@[5], id),
    {
        self.get(5, id)
    }

    pub fn icon(&self, id: u32) -> (r: u32)
        requires
            upgrades_dat_wf(self),
            id < self.spec_amount(),
        ensures
            r == spec_dat_get(&self.tables@[7], id),
    {
        self.get(7, id)
    }

    pub fn repeat_count(&self, id: u32) -> (r: u32)
        requires
            upgrades_dat_wf(self),
            id < self.spec_amount(),
        ensures
            r == spec_dat_get(&self.tables@[10], id),
    {
        self.get(10, id)
    }
}

/// The technology statistics this subsystem reads.
pub struct TechData {
    pub tables: Vec<DatTable>,
}

pub open spec fn techdata_wf(d: &TechData) -> bool {
    &&& d.tables@.len() > 6
    &&& forall|i: int| 0 <= i < d.tables@.len() ==> dat_wf(&d.tables@[i])
    &&& forall|i: int|
        0 <= i < d.tables@.len() ==> (#[trigger] d.tables@[i].entries) == d.tables@[0].entries
}

impl TechData {
    pub open spec fn spec_amount(&self) -> u32 {
        self.tables@[0].entries
    }

    pub fn amount(&self) -> (r: u32)
        requires
            techdata_wf(self),
        ensures
            r == self.spec_amount(),
    {
        self.tables[0].entries
    }

    pub fn get(&self, index: usize, id: u32) -> (r: u32)
        requires
            techdata_wf(self),
            index < self.tables@.len(),
            id < self.spec_amount(),
        ensures
            r == spec_dat_get(&self.tables@[index as int], id),
    {
        dat_get(&self.tables[index], id)
    }

    pub fn mineral_cost(&self, id: u32) -> (r: u32)
        requires
            techdata_wf(self),
            id < self.spec_amount(),
        ensures
            r == spec_dat_get(&self.tables@[0], id),
    {
        self.get(0, id)
    }

    pub fn gas_cost(&self, id: u32) -> (r: u32)
        requires
            techdata_wf(self),
            id < self.spec_amount(),
        ensures
            r == spec_dat_get(&self.tables@[1], id),
    {
        self.get(1, id)
    }

    pub fn time(&self, id: u32) -> (r: u32)
        requires
            techdata_wf(self),
            id < self.spec_amount(),
        ensures
            r == spec_dat_get(&self.tables@[2], id),
    {
        self.get(2, id)
    }

    pub fn energy_cost(&self, id: u32) -> (r: u32)
        requires
            techdata_wf(self),
            id < self.spec_amount(),
        ensures
            r == spec_dat_get(&self.tables@[3], id),
    {
        self.get(3, id)
    }

    pub fn icon(&self, id: u32) -> (r: u32)
        requires
            techdata_wf(self),
            id < self.spec_amount(),
        ensures
            r == spec_dat_get(&self.tables@[6], id),
    {
        self.get(6, id)
    }
}

} // verus!
