//! Board revisions of the Mystrix Pro and where their touch bar is wired.

use vstd::prelude::*;

verus! {

/// Pin of the function button.
pub const FN_PIN: u8 = 16;
/// Pin of the LED chain.
pub const LED_PIN: u8 = 38;
/// Grid LEDs.
pub const GRID_LED_COUNT: usize = 64;
/// Underglow LEDs around the grid.
pub const UNDERGLOW_LED_COUNT: usize = 32;
/// All LEDs of the chain.
pub const LED_COUNT: usize = 96;
/// Segments of the touch bar.
pub const TOUCH_SEGMENT_COUNT: usize = 16;

/// Touch segment read at each position of the serial stream, revisions V100 and V110.
pub const TOUCH_MAP_STANDARD: [u8; 16] = [4, 5, 6, 7, 8, 9, 10, 11, 12, 13, 14, 15, 0, 1, 2, 3];
/// Touch segment read at each position of the serial stream, revision C.
pub const TOUCH_MAP_REVC: [u8; 16] = [4, 5, 6, 7, 15, 14, 13, 12, 11, 10, 9, 8, 0, 1, 2, 3];

/// Hardware revisions.
#[derive(Clone, Copy, Debug, PartialEq, Eq, Structural)]
pub enum Revision {
    V100,
    V110,
    RevC,
}

/// The wiring of a revision.
#[derive(Clone, Copy, Debug)]
pub struct BoardConfig {
    pub revision: Revision,
    pub touch_data_pin: u8,
    pub touch_clock_pin: u8,
    pub touch_map: [u8; 16],
}

/// Touch data and clock pins and touch map of a revision.
pub open spec fn revision_wiring(revision: Revision) -> (u8, u8, Seq<u8>) {
    match revision {
        Revision::V100 => (33, 34, TOUCH_MAP_STANDARD@),
        Revision::V110 => (47, 33, TOUCH_MAP_STANDARD@),
        Revision::RevC => (47, 33, TOUCH_MAP_REVC@),
    }
}

/// The revision named by the user data of the eFuse: bytes 4 to 7 read
/// "V100", "V110" or "REVC"; anything else is taken for V110.
pub open spec fn efuse_revision(data: Seq<u8>) -> Revision {
    if data.len() >= 8 && data.subrange(4, 8) == seq![86u8, 49, 48, 48] {
        Revision::V100
    } else if data.len() >= 8 && data.subrange(4, 8) == seq![82u8, 69, 86, 67] {
        Revision::RevC
    } else {
        Revision::V110
    }
}

impl BoardConfig {
    /// The wiring of `revision`.
    pub fn for_revision(revision: Revision) -> (r: BoardConfig)
        ensures
            r.revision == revision,
            (r.touch_data_pin, r.touch_clock_pin, r.touch_map@) == revision_wiring(revision),
    {
        match revision {
            Revision::V100 => BoardConfig {
                revision,
                touch_data_pin: 33,
                touch_clock_pin: 34,
                touch_map: TOUCH_MAP_STANDARD,
            },
            Revision::V110 => BoardConfig {
                revision,
                touch_data_pin: 47,
                touch_clock_pin: 33,
                touch_map: TOUCH_MAP_STANDARD,
            },
            Revision::RevC => BoardConfig {
                revision,
                touch_data_pin: 47,
                touch_clock_pin: 33,
                touch_map: TOUCH_MAP_REVC,
            },
        }
    }

    /// The wiring of the revision the eFuse user data names.
    pub fn from_efuse_user_data(data: &[u8]) -> (r: BoardConfig)
        ensures
            r.revision == efuse_revision(data@),
            (r.touch_data_pin, r.touch_clock_pin, r.touch_map@) == revision_wiring(r.revision),
    {
        let mut revision = Revision::V110;
        if data.len() >= 8 {
            let (a, b, c, d) = (data[4], data[5], data[6], data[7]);
            if a == 86 && b == 49 && c == 48 && d == 48 {
                revision = Revision::V100;
            } else if a == 86 && b == 49 && c == 49 && d == 48 {
                revision = Revision::V110;
            } else if a == 82 && b == 69 && c == 86 && d == 67 {
                revision = Revision::RevC;
            }
            proof {
                let s = data@.subrange(4, 8);
                if a == 86 && b == 49 && c == 48 && d == 48 {
                    assert(s =~= seq![86u8, 49, 48, 48]);
                } else if a == 82 && b == 69 && c == 86 && d == 67 {
                    assert(s =~= seq![82u8, 69, 86, 67]);
                    assert(s != seq![86u8, 49, 48, 48]) by {
                        assert(s[0] != 86u8);
                    }
                } else {
                    if s == seq![86u8, 49, 48, 48] {
                        assert(s[0] == 86 && s[1] == 49 && s[2] == 48 && s[3] == 48);
                    }
                    if s == seq![82u8, 69, 86, 67] {
                        assert(s[0] == 82 && s[1] == 69 && s[2] == 86 && s[3] == 67);
                    }
                }
            }
        }
        BoardConfig::for_revision(revision)
    }
}

} // verus!
