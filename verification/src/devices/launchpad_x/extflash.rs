//! The Launchpad X's settings, kept in the last 8 KiB of its external SPI
//! flash, which is erased in sectors of 4 KiB and programmed in pages of 256
//! bytes. Without the chip, reads give erased bytes and writes do nothing.

use vstd::prelude::*;
use crate::sys::settings_flash::{
    apply_writes, erase_plan, lemma_read_after_write, pages_to_program, plan_write, read_region,
    region_read, region_written, writes_view, EraseError, UnitWrite, ERASED,
};

verus! {

/// Size of a program page.
pub const PAGE_SIZE: usize = 256;

/// Size of an erase sector.
pub const SECTOR_SIZE: u32 = 4096;

/// Size of the chip.
pub const TOTAL_SIZE: u32 = 1024 * 1024;

/// Size of the settings region.
pub const SETTINGS_SIZE: u32 = 8 * 1024;

/// Address of the settings region on the chip.
pub const SETTINGS_OFFSET: u32 = 1024 * 1024 - 8 * 1024;

/// The settings store; `present` says whether the chip answered.
pub struct ExtFlash {
    pub present: bool,
}

impl ExtFlash {
    /// The settings store, with or without its chip.
    pub fn new(present: bool) -> (r: ExtFlash)
        ensures
            r.present == present,
    {
        ExtFlash { present }
    }

    /// Size of the settings region.
    pub fn settings_size(&self) -> (r: u32)
        ensures
            r == SETTINGS_SIZE,
    {
        SETTINGS_SIZE
    }

    /// `len` bytes of the settings region `region` at `offset`; bytes past
    /// its end, and every byte without the chip, read as erased.
    pub fn read_settings(&self, region: &Vec<u8>, offset: u32, len: usize) -> (r: Vec<u8>)
        requires
            region@.len() == SETTINGS_SIZE,
        ensures
            self.present ==> r@ == region_read(region@, offset as int, len as int),
            !self.present ==> r@ == Seq::new(len as nat, |i: int| ERASED),
    {
        if self.present {
            read_region(region, offset, len)
        } else {
            let mut r: Vec<u8> = Vec::new();
            let mut i: usize = 0;
            while i < len
                invariant
                    i <= len,
                    r@ == Seq::new(i as nat, |k: int| ERASED),
                decreases len - i,
            {
                r.push(ERASED);
                i = i + 1;
                assert(r@ =~= Seq::new(i as nat, |k: int| ERASED));
            }
            r
        }
    }

    /// The sectors to erase and reprogram so that the settings region
    /// `region` holds `data` at `offset`: each sector touched whose bytes
    /// change, whole; none without the chip.
    pub fn write_settings(&self, region: &Vec<u8>, offset: u32, data: &[u8]) -> (r: Vec<UnitWrite>)
        requires
            region@.len() == SETTINGS_SIZE,
        ensures
            !self.present ==> r@.len() == 0,
            self.present ==> apply_writes(region@, writes_view(r@)) == region_written(
                region@,
                offset as int,
                data@,
            ),
            forall|k: int|
                0 <= k < r@.len() ==> {
                    let w = #[trigger] r@[k];
                    &&& w.base % SECTOR_SIZE == 0
                    &&& w.bytes@.len() == SECTOR_SIZE
                    &&& w.base + SECTOR_SIZE <= SETTINGS_SIZE
                    &&& w.bytes@ != region@.subrange(w.base as int, w.base + SECTOR_SIZE)
                },
            forall|k: int, l: int| 0 <= k < l < r@.len() ==> r@[k].base < r@[l].base,
            region_written(region@, offset as int, data@) == region@ ==> r@.len() == 0,
    {
        if !self.present {
            return Vec::new();
        }
        plan_write(region, SECTOR_SIZE, offset, data)
    }

    /// Offsets of the pages of an erased and rewritten sector that need
    /// programming: those not left erased.
    pub fn sector_pages(sector: &Vec<u8>) -> (r: Vec<usize>)
        ensures
            forall|k: int| 0 <= k < r@.len() ==> (#[trigger] r@[k]) % PAGE_SIZE == 0,
            forall|k: int| 0 <= k < r@.len() ==> #[trigger] r@[k] + PAGE_SIZE <= sector@.len(),
            forall|k: int, l: int| 0 <= k < l < r@.len() ==> r@[k] < r@[l],
            forall|o: int|
                #![trigger sector@.subrange(o, o + PAGE_SIZE)]
                0 <= o && o + PAGE_SIZE <= sector@.len() && o % (PAGE_SIZE as int) == 0 ==> (
                r@.contains(o as usize) <==> !crate::sys::settings_flash::erased(
                    sector@.subrange(o, o + PAGE_SIZE as int),
                )),
    {
        pages_to_program(sector, PAGE_SIZE)
    }

    /// The chip addresses of the sectors to erase for the settings range
    /// `from..to`, which must start and end on sectors and not be empty;
    /// without the chip nothing is erased.
    pub fn erase(&self, from: u32, to: u32) -> (r: Result<Vec<u32>, EraseError>)
        requires
            to <= u32::MAX - SETTINGS_OFFSET,
        ensures
            (from % SECTOR_SIZE != 0 || to % SECTOR_SIZE != 0 || from >= to) <==> r is Err,
            r matches Ok(sectors) ==> (!self.present ==> sectors@.len() == 0) && (self.present
                ==> sectors@.len() == (to - from) / (SECTOR_SIZE as int) && forall|k: int|
                0 <= k < sectors@.len() ==> #[trigger] sectors@[k] == SETTINGS_OFFSET + from + k
                * SECTOR_SIZE),
    {
        let plan = erase_plan(from, to, SECTOR_SIZE);
        match plan {
            Err(e) => Err(e),
            Ok(units) => {
                let mut sectors: Vec<u32> = Vec::new();
                if self.present {
                    let mut i: usize = 0;
                    while i < units.len()
                        invariant
                            i <= units@.len(),
                            units@.len() == (to - from) / (SECTOR_SIZE as int),
                            from < to <= u32::MAX - SETTINGS_OFFSET,
                            forall|k: int|
                                0 <= k < units@.len() ==> #[trigger] units@[k] == from + k
                                    * SECTOR_SIZE,
                            sectors@.len() == i,
                            forall|k: int|
                                0 <= k < i ==> #[trigger] sectors@[k] == SETTINGS_OFFSET + from + k
                                    * SECTOR_SIZE,
                        decreases units@.len() - i,
                    {
                        proof {
                            assert(units@[i as int] < to) by {
                                vstd::arithmetic::div_mod::lemma_fundamental_div_mod(
                                    (to - from) as int,
                                    SECTOR_SIZE as int,
                                );
                                assert(i * SECTOR_SIZE < to - from) by (nonlinear_arith)
                                    requires
                                        i < (to - from) / (SECTOR_SIZE as int),
                                        to - from == 4096 * ((to - from) / 4096) + (to - from)
                                            % 4096,
                                        (to - from) % 4096 >= 0,
                                ;
                            }
                        }
                        sectors.push(SETTINGS_OFFSET + units[i]);
                        i = i + 1;
                    }
                }
                Ok(sectors)
            },
        }
    }
}

/// Once the sector writes that `write_settings` plans are made, a read of
/// the written range gives the data back, as far as the region reaches,
/// and erased bytes past its end; every other byte of the region keeps its
/// value.
pub proof fn lemma_settings_read_back(
    region: Seq<u8>,
    offset: u32,
    data: Seq<u8>,
    writes: Seq<(u32, Seq<u8>)>,
)
    requires
        region.len() == SETTINGS_SIZE,
        apply_writes(region, writes) == region_written(region, offset as int, data),
    ensures
        region_read(apply_writes(region, writes), offset as int, data.len() as int) == Seq::new(
            data.len(),
            |i: int|
                if offset + i < SETTINGS_SIZE {
                    data[i]
                } else {
                    ERASED
                },
        ),
        forall|j: int|
            0 <= j < SETTINGS_SIZE && !(offset <= j < offset + data.len()) ==> #[trigger] apply_writes(
                region,
                writes,
            )[j] == region[j],
{
    lemma_read_after_write(region, offset as int, data);
}

} // verus!
