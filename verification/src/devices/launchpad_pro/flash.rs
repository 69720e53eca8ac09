//! The Launchpad Pro's settings, kept in the last six pages of the MCU's own
//! flash.

use vstd::prelude::*;
use crate::sys::settings_flash::{
    apply_writes, plan_write, read_region, region_read, region_written, writes_view, UnitWrite,
};

verus! {

/// Address of the settings region.
pub const SETTINGS_START: u32 = 0x0801_e000;

/// Size of the settings region.
pub const SETTINGS_SIZE: u32 = 6 * 1024;

/// Size of a flash page, the unit of erasing.
pub const PAGE_SIZE: u32 = 1024;

/// The settings store.
pub struct Flash;

impl Flash {
    /// The settings store.
    pub fn new() -> (r: Flash) {
        Flash
    }

    /// Size of the settings region.
    pub fn settings_size(&self) -> (r: u32)
        ensures
            r == SETTINGS_SIZE,
    {
        SETTINGS_SIZE
    }

    /// `len` bytes of the settings region `region` at `offset`; bytes past
    /// its end read as erased.
    pub fn read_settings(&self, region: &Vec<u8>, offset: u32, len: usize) -> (r: Vec<u8>)
        requires
            region@.len() == SETTINGS_SIZE,
        ensures
            r@ == region_read(region@, offset as int, len as int),
    {
        read_region(region, offset, len)
    }

    /// The pages to erase and program so that the settings region `region`
    /// holds `data` at `offset`: each page touched whose bytes change, whole.
    pub fn write_settings(&self, region: &Vec<u8>, offset: u32, data: &[u8]) -> (r: Vec<UnitWrite>)
        requires
            region@.len() == SETTINGS_SIZE,
        ensures
            apply_writes(region@, writes_view(r@)) == region_written(region@, offset as int, data@),
            forall|k: int|
                0 <= k < r@.len() ==> {
                    let w = #[trigger] r@[k];
                    &&& w.base % PAGE_SIZE == 0
                    &&& w.bytes@.len() == PAGE_SIZE
                    &&& w.base + PAGE_SIZE <= SETTINGS_SIZE
                    &&& w.bytes@ != region@.subrange(w.base as int, w.base + PAGE_SIZE)
                },
            forall|k: int, l: int| 0 <= k < l < r@.len() ==> r@[k].base < r@[l].base,
            region_written(region@, offset as int, data@) == region@ ==> r@.len() == 0,
    {
        plan_write(region, PAGE_SIZE, offset, data)
    }
}

} // verus!
