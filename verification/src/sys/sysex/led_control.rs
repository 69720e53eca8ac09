use vstd::prelude::*;
use crate::sys::led::LedCommand;

verus! {

/// Where the LED requests of a modern LED SysEx message go.
pub trait LedTarget {
    fn set_palette(&mut self, index: u8, velocity: u8);

    fn set_rgb(&mut self, index: u8, r: u8, g: u8, b: u8);
}

impl LedTarget for Vec<LedCommand> {
    fn set_palette(&mut self, index: u8, velocity: u8)
        ensures
            final(self)@ == old(self)@.push(LedCommand::Palette { index, velocity }),
    {
        self.push(LedCommand::Palette { index, velocity });
    }

    fn set_rgb(&mut self, index: u8, r: u8, g: u8, b: u8)
        ensures
            final(self)@ == old(self)@.push(LedCommand::Rgb { index, r, g, b }),
    {
        self.push(LedCommand::Rgb { index, r, g, b });
    }
}

/// `data` is framed as a SysEx message (`F0 ... F7`) of at least 8 bytes.
pub open spec fn is_framed(data: Seq<u8>) -> bool {
    &&& data.len() >= 8
    &&& data[0] == 0xf0
    &&& data[data.len() - 1] == 0xf7
}

/// `data` starts with Novation's SysEx header for `device_id`.
pub open spec fn has_novation_header(data: Seq<u8>, device_id: u8) -> bool {
    &&& data.len() >= 6
    &&& data[0] == 0xf0
    &&& data[1] == 0x00
    &&& data[2] == 0x20
    &&& data[3] == 0x29
    &&& data[4] == 0x02
    &&& data[5] == device_id
}

/// `data` is a modern LED message for `device_id` (command byte 3).
pub open spec fn is_modern_led_message(data: Seq<u8>, device_id: u8) -> bool {
    &&& is_framed(data)
    &&& has_novation_header(data, device_id)
    &&& data[6] == 0x03
}

/// The LED requests of the modern LED message body, read from `index` on.
///
/// Each entry is a lighting type, an LED index and its payload: type 0 is a
/// palette entry (one byte), type 3 an RGB colour (three bytes, each masked to
/// six bits); types 1 and 2 carry two and one bytes and are skipped. Reading
/// stops at the terminator, at an incomplete entry or at an unknown type.
pub open spec fn modern_commands(data: Seq<u8>, index: int) -> Seq<LedCommand>
    decreases data.len() - index,
{
    let end = data.len() - 1;
    if index < 0 || index >= end || index + 2 > end {
        Seq::empty()
    } else {
        let kind = data[index];
        let led = data[index + 1];
        let i = index + 2;
        if kind == 0 {
            if i >= end {
                Seq::empty()
            } else {
                seq![LedCommand::Palette { index: led, velocity: data[i] }] + modern_commands(
                    data,
                    i + 1,
                )
            }
        } else if kind == 1 {
            if i + 2 > end {
                Seq::empty()
            } else {
                modern_commands(data, i + 2)
            }
        } else if kind == 2 {
            if i + 1 > end {
                Seq::empty()
            } else {
                modern_commands(data, i + 1)
            }
        } else if kind == 3 {
            if i + 3 > end {
                Seq::empty()
            } else {
                seq![
                    LedCommand::Rgb {
                        index: led,
                        r: data[i] & 0x3f,
                        g: data[i + 1] & 0x3f,
                        b: data[i + 2] & 0x3f,
                    },
                ] + modern_commands(data, i + 3)
            }
        } else {
            Seq::empty()
        }
    }
}

/// The size of each entry of a modern LED message: a palette entry takes its
/// type, LED and one colour byte; a flashing entry its type, LED and two
/// colour bytes; a pulsing entry its type, LED and one colour byte; an RGB
/// entry its type, LED and three colour bytes (each cut to six bits). The
/// entries after each are read on from there.
pub proof fn lemma_modern_entry_sizes(data: Seq<u8>, i: int)
    requires
        0 <= i,
    ensures
        data[i] == 0 && i + 3 <= data.len() - 1 ==> modern_commands(data, i) == seq![
            LedCommand::Palette { index: data[i + 1], velocity: data[i + 2] },
        ] + modern_commands(data, i + 3),
        data[i] == 1 && i + 4 <= data.len() - 1 ==> modern_commands(data, i) == modern_commands(
            data,
            i + 4,
        ),
        data[i] == 2 && i + 3 <= data.len() - 1 ==> modern_commands(data, i) == modern_commands(
            data,
            i + 3,
        ),
        data[i] == 3 && i + 5 <= data.len() - 1 ==> modern_commands(data, i) == seq![
            LedCommand::Rgb {
                index: data[i + 1],
                r: data[i + 2] & 0x3f,
                g: data[i + 3] & 0x3f,
                b: data[i + 4] & 0x3f,
            },
        ] + modern_commands(data, i + 5),
        data[i] > 3 ==> modern_commands(data, i) == Seq::<LedCommand>::empty(),
{
}

pub(crate) fn matches_novation_header(data: &[u8], device_id: u8) -> (r: bool)
    ensures
        r == has_novation_header(data@, device_id),
{
    data.len() >= 6 && data[0] == 0xf0 && data[1] == 0x00 && data[2] == 0x20 && data[3] == 0x29
        && data[4] == 0x02 && data[5] == device_id
}

pub(crate) fn is_framed_exec(data: &[u8]) -> (r: bool)
    ensures
        r == is_framed(data@),
{
    data.len() >= 8 && data[0] == 0xf0 && data[data.len() - 1] == 0xf7
}

/// Handles a modern LED SysEx message (`F0 00 20 29 02 <id> 03 ... F7`).
///
/// Returns whether `data` is such a message for `device_id`; if it is, its LED
/// requests are appended to `target`, otherwise `target` is left as it was.
pub fn handle_modern(data: &[u8], device_id: u8, target: &mut Vec<LedCommand>) -> (r: bool)
    ensures
        r == is_modern_led_message(data@, device_id),
        final(target)@ == old(target)@ + (if r {
            modern_commands(data@, 7)
        } else {
            Seq::empty()
        }),
{
    if !is_framed_exec(data) {
        assert(old(target)@ + Seq::<LedCommand>::empty() == old(target)@);
        return false;
    }
    if !(matches_novation_header(data, device_id) && data[6] == 0x03) {
        assert(old(target)@ + Seq::<LedCommand>::empty() == old(target)@);
        return false;
    }
    let end = data.len() - 1;
    let mut index: usize = 7;
    loop
        invariant
            end == data.len() - 1,
            data.len() >= 8,
            7 <= index <= end,
            old(target)@ + modern_commands(data@, 7) == target@ + modern_commands(
                data@,
                index as int,
            ),
        ensures
            modern_commands(data@, index as int) == Seq::<LedCommand>::empty(),
            old(target)@ + modern_commands(data@, 7) == target@ + modern_commands(
                data@,
                index as int,
            ),
        decreases end - index,
    {
        if index >= end || end - index < 2 {
            break;
        }
        let lighting_type = data[index];
        let led_index = data[index + 1];
        let i = index + 2;
        if lighting_type == 0 {
            if i >= end {
                break;
            }
            target.set_palette(led_index, data[i]);
            proof {
                assert(modern_commands(data@, index as int) == seq![
                    LedCommand::Palette { index: led_index, velocity: data@[i as int] },
                ] + modern_commands(data@, i + 1));
            }
            index = i + 1;
        } else if lighting_type == 1 {
            if end - i < 2 {
                break;
            }
            index = i + 2;
        } else if lighting_type == 2 {
            if end - i < 1 {
                break;
            }
            index = i + 1;
        } else if lighting_type == 3 {
            if end - i < 3 {
                break;
            }
            let r = data[i] & 0x3f;
            let g = data[i + 1] & 0x3f;
            let b = data[i + 2] & 0x3f;
            target.set_rgb(led_index, r, g, b);
            proof {
                assert(modern_commands(data@, index as int) == seq![
                    LedCommand::Rgb { index: led_index, r, g, b },
                ] + modern_commands(data@, i + 3));
            }
            index = i + 3;
        } else {
            break;
        }
    }
    assert(modern_commands(data@, index as int) == Seq::<LedCommand>::empty());
    assert(target@ + Seq::<LedCommand>::empty() == target@);
    true
}


/// How a device lays out the rows and columns addressed by legacy LED messages.
#[derive(Copy, Clone, Debug, PartialEq, Eq, Structural)]
pub enum GridMap {
    /// Launchpad MK2: an 8x8 grid, the top row of round buttons as row 8 and
    /// the right-hand column as column 8.
    Mk2,
    /// Launchpad Pro: a 10x10 layout without its four corners.
    Pro,
}

/// The LED index at `row`, `col` under `map`, if there is one.
pub open spec fn grid_led(map: GridMap, row: u8, col: u8) -> Option<u8> {
    match map {
        GridMap::Mk2 => if row > 8 || col > 8 {
            None
        } else if row < 8 && col < 8 {
            Some(((row + 1) * 10 + (col + 1)) as u8)
        } else if row == 8 && col < 8 {
            Some((104 + col) as u8)
        } else if col == 8 && row < 8 {
            Some(((row + 1) * 10 + 9) as u8)
        } else {
            None
        },
        GridMap::Pro => if row > 9 || col > 9 {
            None
        } else if (row == 0 || row == 9) && (col == 0 || col == 9) {
            None
        } else {
            Some((row * 10 + col) as u8)
        },
    }
}

/// The LED index at `row`, `col` under `map`, if there is one.
pub fn map_grid(map: GridMap, row: u8, col: u8) -> (r: Option<u8>)
    ensures
        r == grid_led(map, row, col),
{
    match map {
        GridMap::Mk2 => {
            if row > 8 || col > 8 {
                None
            } else if row < 8 && col < 8 {
                Some((row + 1) * 10 + (col + 1))
            } else if row == 8 && col < 8 {
                Some(104 + col)
            } else if col == 8 && row < 8 {
                Some((row + 1) * 10 + 9)
            } else {
                None
            }
        },
        GridMap::Pro => {
            if row > 9 || col > 9 {
                None
            } else if (row == 0 || row == 9) && (col == 0 || col == 9) {
                None
            } else {
                Some(row * 10 + col)
            }
        },
    }
}

/// A palette request for `led` when the map has an LED there, else nothing.
pub open spec fn palette_at(led: Option<u8>, velocity: u8) -> Seq<LedCommand> {
    match led {
        Some(index) => seq![LedCommand::Novation { index, velocity }],
        None => Seq::empty(),
    }
}

/// Index/velocity pairs from `index` on, each applied when its LED is at most
/// `max_led`.
pub open spec fn legacy_pairs(data: Seq<u8>, max_led: u8, index: int) -> Seq<LedCommand>
    decreases data.len() - index,
{
    if index < 0 || index + 1 >= data.len() - 1 {
        Seq::empty()
    } else {
        (if data[index] <= max_led {
            seq![LedCommand::Novation { index: data[index], velocity: data[index + 1] }]
        } else {
            Seq::empty()
        }) + legacy_pairs(data, max_led, index + 2)
    }
}

/// Index/red/green/blue quadruples from `index` on, each applied when its LED
/// is at most `max_led`; colours are masked to six bits.
pub open spec fn legacy_quads(data: Seq<u8>, max_led: u8, index: int) -> Seq<LedCommand>
    decreases data.len() - index,
{
    if index < 0 || index + 3 >= data.len() - 1 {
        Seq::empty()
    } else {
        (if data[index] <= max_led {
            seq![
                LedCommand::Rgb {
                    index: data[index],
                    r: data[index + 1] & 0x3f,
                    g: data[index + 2] & 0x3f,
                    b: data[index + 3] & 0x3f,
                },
            ]
        } else {
            Seq::empty()
        }) + legacy_quads(data, max_led, index + 4)
    }
}

/// Palette entries from `index` on, for consecutive rows (or columns) from
/// `step` on of a fixed column (or row) `fixed`.
pub open spec fn legacy_line(
    data: Seq<u8>,
    map: GridMap,
    fixed: u8,
    by_column: bool,
    index: int,
    step: int,
) -> Seq<LedCommand>
    decreases data.len() - index,
{
    if index < 0 || index >= data.len() - 1 {
        Seq::empty()
    } else {
        palette_at(
            if by_column {
                grid_led(map, (step % 256) as u8, fixed)
            } else {
                grid_led(map, fixed, (step % 256) as u8)
            },
            data[index],
        ) + legacy_line(data, map, fixed, by_column, index + 1, step + 1)
    }
}

/// Palette entry `velocity` on every LED from 0 to `max_led`.
pub open spec fn legacy_fill(velocity: u8, max_led: u8) -> Seq<LedCommand> {
    Seq::new((max_led + 1) as nat, |i: int| LedCommand::Novation { index: i as u8, velocity })
}

/// Number of cells of a full-frame message: 10x10 for mode 0, 8x8 for mode 1.
pub open spec fn frame_cells(mode: u8) -> int {
    if mode == 0 {
        100
    } else {
        64
    }
}

/// Row and column of cell `k` of a full-frame message.
pub open spec fn frame_cell(mode: u8, k: int) -> (u8, u8) {
    if mode == 0 {
        ((k / 10) as u8, (k % 10) as u8)
    } else {
        ((1 + k / 8) as u8, (1 + k % 8) as u8)
    }
}

/// Cells of a full-frame message run row by row, left to right: the first
/// is the top-left cell (row 0, column 0 of the 10x10 layout in mode 0; pad
/// row 1, column 1 in mode 1), each next cell is the right-hand neighbour in
/// its row, and after the last cell of a row comes the first of the next.
pub proof fn lemma_frame_cells_row_by_row(mode: u8, k: int)
    requires
        0 <= k,
        k + 1 < frame_cells(mode),
    ensures
        frame_cell(mode, 0) == (if mode == 0 {
            (0u8, 0u8)
        } else {
            (1u8, 1u8)
        }),
        ({
            let w: int = if mode == 0 {
                10
            } else {
                8
            };
            let (r, c) = frame_cell(mode, k);
            let (r1, c1) = frame_cell(mode, k + 1);
            &&& (k + 1) % w != 0 ==> r1 == r && c1 == c + 1
            &&& (k + 1) % w == 0 ==> r1 == r + 1 && c1 == frame_cell(mode, 0).1
        }),
{
    if mode == 0 {
        assert((k + 1) % 10 != 0 ==> (k + 1) / 10 == k / 10 && (k + 1) % 10 == k % 10 + 1);
        assert((k + 1) % 10 == 0 ==> (k + 1) / 10 == k / 10 + 1);
    } else {
        assert((k + 1) % 8 != 0 ==> (k + 1) / 8 == k / 8 && (k + 1) % 8 == k % 8 + 1);
        assert((k + 1) % 8 == 0 ==> (k + 1) / 8 == k / 8 + 1);
    }
}

/// RGB requests of a full-frame message from cell `k` on; cell `k` is read at
/// `8 + 3k` and the message ends at the first cell without three bytes before
/// the terminator.
pub open spec fn legacy_frame(data: Seq<u8>, map: GridMap, mode: u8, k: int) -> Seq<LedCommand>
    decreases frame_cells(mode) - k,
{
    let index = 8 + 3 * k;
    if k < 0 || k >= frame_cells(mode) || index + 2 >= data.len() - 1 {
        Seq::empty()
    } else {
        let (row, col) = frame_cell(mode, k);
        (match grid_led(map, row, col) {
            Some(led) => seq![
                LedCommand::Rgb {
                    index: led,
                    r: data[index] & 0x3f,
                    g: data[index + 1] & 0x3f,
                    b: data[index + 2] & 0x3f,
                },
            ],
            None => Seq::empty(),
        }) + legacy_frame(data, map, mode, k + 1)
    }
}

/// The LED requests of a legacy LED message (`data` framed, header checked).
pub open spec fn legacy_commands(data: Seq<u8>, map: GridMap, max_led: u8) -> Seq<LedCommand> {
    let command = data[6];
    if command == 0x0a {
        legacy_pairs(data, max_led, 7)
    } else if command == 0x0b {
        legacy_quads(data, max_led, 7)
    } else if command == 0x0c {
        if data.len() < 9 {
            Seq::empty()
        } else {
            legacy_line(data, map, data[7], true, 8, 0)
        }
    } else if command == 0x0d {
        if data.len() < 9 {
            Seq::empty()
        } else {
            legacy_line(data, map, data[7], false, 8, 0)
        }
    } else if command == 0x0e {
        legacy_fill(data[7], max_led)
    } else if command == 0x0f {
        if data.len() < 11 || data[7] > 1 {
            Seq::empty()
        } else {
            legacy_frame(data, map, data[7], 0)
        }
    } else {
        Seq::empty()
    }
}

/// The write of the `k`-th value byte of a row (`by_column` false) or
/// column message: the LED at step `k` (counted modulo 256) along the line,
/// if there is one.
pub open spec fn line_cell(data: Seq<u8>, map: GridMap, fixed: u8, by_column: bool, k: int) -> Seq<
    LedCommand,
> {
    palette_at(
        if by_column {
            grid_led(map, (k % 256) as u8, fixed)
        } else {
            grid_led(map, fixed, (k % 256) as u8)
        },
        data[8 + k],
    )
}

proof fn lemma_line_suffix(data: Seq<u8>, map: GridMap, fixed: u8, by_column: bool, index: int)
    requires
        8 <= index <= data.len() - 1,
    ensures
        legacy_line(data, map, fixed, by_column, index, index - 8) == Seq::new(
            (data.len() - 1 - index) as nat,
            |k: int| line_cell(data, map, fixed, by_column, index - 8 + k),
        ).flatten(),
    decreases data.len() - index,
{
    let cells = Seq::new(
        (data.len() - 1 - index) as nat,
        |k: int| line_cell(data, map, fixed, by_column, index - 8 + k),
    );
    if index < data.len() - 1 {
        lemma_line_suffix(data, map, fixed, by_column, index + 1);
        assert(cells.drop_first() =~= Seq::new(
            (data.len() - 1 - (index + 1)) as nat,
            |k: int| line_cell(data, map, fixed, by_column, index + 1 - 8 + k),
        ));
    } else {
        assert(cells.len() == 0);
    }
}

/// A row (`0D`) or column (`0C`) message of `n` value bytes writes, for
/// the `k`-th value byte in order, palette entry `data[8 + k]` on the LED at
/// step `k` (counted modulo 256) along the line, where there is one; and
/// nothing else.
pub proof fn lemma_line_writes(data: Seq<u8>, map: GridMap, max_led: u8)
    requires
        data.len() >= 9,
        data[6] == 0x0c || data[6] == 0x0d,
    ensures
        legacy_commands(data, map, max_led) == Seq::new(
            (data.len() - 9) as nat,
            |k: int| line_cell(data, map, data[7], data[6] == 0x0c, k),
        ).flatten(),
{
    lemma_line_suffix(data, map, data[7], data[6] == 0x0c, 8);
    assert(Seq::new(
        (data.len() - 9) as nat,
        |k: int| line_cell(data, map, data[7], data[6] == 0x0c, 8 - 8 + k),
    ) =~= Seq::new(
        (data.len() - 9) as nat,
        |k: int| line_cell(data, map, data[7], data[6] == 0x0c, k),
    ));
}

/// The requests of a modern LED message come from the bytes before its
/// terminator only: messages that agree there give the same requests.
pub proof fn lemma_modern_ignores_terminator(data: Seq<u8>, other: Seq<u8>, index: int)
    requires
        data.len() == other.len(),
        data.len() >= 1,
        forall|j: int| 0 <= j < data.len() - 1 ==> data[j] == other[j],
    ensures
        modern_commands(data, index) == modern_commands(other, index),
    decreases data.len() - index,
{
    let end = data.len() - 1;
    if !(index < 0 || index >= end || index + 2 > end) {
        let i = index + 2;
        if i + 1 <= data.len() {
            lemma_modern_ignores_terminator(data, other, i + 1);
        }
        if i + 2 <= data.len() {
            lemma_modern_ignores_terminator(data, other, i + 2);
        }
        if i + 3 <= data.len() {
            lemma_modern_ignores_terminator(data, other, i + 3);
        }
    }
}

fn legacy_line_exec(
    data: &[u8],
    map: GridMap,
    fixed: u8,
    by_column: bool,
    leds: &mut Vec<LedCommand>,
)
    requires
        9 <= data.len(),
    ensures
        final(leds)@ == old(leds)@ + legacy_line(data@, map, fixed, by_column, 8, 0),
{
    let end = data.len() - 1;
    let mut index: usize = 8;
    let mut step: u8 = 0;
    while index < end
        invariant
            end == data.len() - 1,
            9 <= data.len(),
            8 <= index <= end,
            step == (index - 8) % 256,
            old(leds)@ + legacy_line(data@, map, fixed, by_column, 8, 0) == leds@ + legacy_line(
                data@,
                map,
                fixed,
                by_column,
                index as int,
                index - 8,
            ),
        decreases end - index,
    {
        let led = if by_column {
            map_grid(map, step, fixed)
        } else {
            map_grid(map, fixed, step)
        };
        let ghost before = leds@;
        if let Some(led_index) = led {
            leds.push(LedCommand::Novation { index: led_index, velocity: data[index] });
        }
        proof {
            assert(leds@ == before + palette_at(led, data@[index as int]));
        }
        index += 1;
        step = if step == 255 {
            0
        } else {
            step + 1
        };
    }
}

pub(crate) fn legacy_frame_exec(data: &[u8], map: GridMap, mode: u8, leds: &mut Vec<LedCommand>)
    requires
        data.len() >= 11,
        mode <= 1,
    ensures
        final(leds)@ == old(leds)@ + legacy_frame(data@, map, mode, 0),
{
    let end = data.len() - 1;
    let cells: usize = if mode == 0 {
        100
    } else {
        64
    };
    let mut k: usize = 0;
    loop
        invariant
            end == data.len() - 1,
            data.len() >= 11,
            mode <= 1,
            cells == frame_cells(mode),
            k <= cells,
            old(leds)@ + legacy_frame(data@, map, mode, 0) == leds@ + legacy_frame(
                data@,
                map,
                mode,
                k as int,
            ),
        ensures
            old(leds)@ + legacy_frame(data@, map, mode, 0) == leds@,
        decreases cells - k,
    {
        if k >= cells {
            proof {
                assert(leds@ + Seq::<LedCommand>::empty() == leds@);
            }
            break;
        }
        let index = 8 + 3 * k;
        if index + 2 >= end {
            proof {
                assert(leds@ + Seq::<LedCommand>::empty() == leds@);
            }
            break;
        }
        let (row, col) = if mode == 0 {
            ((k / 10) as u8, (k % 10) as u8)
        } else {
            ((1 + k / 8) as u8, (1 + k % 8) as u8)
        };
        let r = data[index] & 0x3f;
        let g = data[index + 1] & 0x3f;
        let b = data[index + 2] & 0x3f;
        let ghost before = leds@;
        if let Some(led_index) = map_grid(map, row, col) {
            leds.push(LedCommand::Rgb { index: led_index, r, g, b });
        }
        proof {
            assert(frame_cell(mode, k as int) == (row, col));
            let piece = match grid_led(map, row, col) {
                Some(led) => seq![LedCommand::Rgb { index: led, r, g, b }],
                None => Seq::<LedCommand>::empty(),
            };
            assert(leds@ == before + piece);
            assert(legacy_frame(data@, map, mode, k as int) == piece + legacy_frame(
                data@,
                map,
                mode,
                k + 1,
            ));
        }
        k += 1;
    }
}

/// Appends the requests of palette pairs from byte 7 on.
pub(crate) fn legacy_pairs_exec(data: &[u8], max_led_index: u8, leds: &mut Vec<LedCommand>)
    requires
        data.len() >= 8,
    ensures
        final(leds)@ == old(leds)@ + legacy_pairs(data@, max_led_index, 7),
{
    let end = data.len() - 1;
    let mut index: usize = 7;
    while index < end && end - index > 1
        invariant
            end == data.len() - 1,
            data.len() >= 8,
            7 <= index <= end + 1,
            old(leds)@ + legacy_pairs(data@, max_led_index, 7) == leds@ + legacy_pairs(
                data@,
                max_led_index,
                index as int,
            ),
        decreases end + 1 - index,
    {
        let led_index = data[index];
        let velocity = data[index + 1];
        if led_index <= max_led_index {
            leds.push(LedCommand::Novation { index: led_index, velocity });
        }
        proof {
            assert(legacy_pairs(data@, max_led_index, index as int) == (if led_index
                <= max_led_index {
                seq![LedCommand::Novation { index: led_index, velocity }]
            } else {
                Seq::empty()
            }) + legacy_pairs(data@, max_led_index, index + 2));
        }
        index += 2;
    }
    assert(leds@ + Seq::<LedCommand>::empty() == leds@);
}

/// Appends the requests of RGB quadruples from byte 7 on.
pub(crate) fn legacy_quads_exec(data: &[u8], max_led_index: u8, leds: &mut Vec<LedCommand>)
    requires
        data.len() >= 8,
    ensures
        final(leds)@ == old(leds)@ + legacy_quads(data@, max_led_index, 7),
{
    let end = data.len() - 1;
    let mut index: usize = 7;
    while index < end && end - index > 3
        invariant
            end == data.len() - 1,
            data.len() >= 8,
            7 <= index <= end + 3,
            old(leds)@ + legacy_quads(data@, max_led_index, 7) == leds@ + legacy_quads(
                data@,
                max_led_index,
                index as int,
            ),
        decreases end + 3 - index,
    {
        let led_index = data[index];
        let r = data[index + 1] & 0x3f;
        let g = data[index + 2] & 0x3f;
        let b = data[index + 3] & 0x3f;
        if led_index <= max_led_index {
            leds.push(LedCommand::Rgb { index: led_index, r, g, b });
        }
        proof {
            assert(legacy_quads(data@, max_led_index, index as int) == (if led_index
                <= max_led_index {
                seq![LedCommand::Rgb { index: led_index, r, g, b }]
            } else {
                Seq::empty()
            }) + legacy_quads(data@, max_led_index, index + 4));
        }
        index += 4;
    }
    assert(leds@ + Seq::<LedCommand>::empty() == leds@);
}

/// Handles a legacy LED SysEx message (`F0 00 20 29 02 <id> <cmd> ... F7`).
///
/// Returns whether `data` is framed and carries the header for `device_id`;
/// the LED requests of commands `0A` (palette pairs), `0B` (RGB quadruples),
/// `0C` (a column), `0D` (a row), `0E` (fill) and `0F` (a full frame) are then
/// appended to `leds`, under the row/column layout `map` and the highest LED
/// index `max_led_index`. Other commands are accepted and do nothing.
pub fn handle_legacy(
    data: &[u8],
    device_id: u8,
    map: GridMap,
    max_led_index: u8,
    leds: &mut Vec<LedCommand>,
) -> (r: bool)
    ensures
        r == (is_framed(data@) && has_novation_header(data@, device_id)),
        final(leds)@ == old(leds)@ + (if r {
            legacy_commands(data@, map, max_led_index)
        } else {
            Seq::empty()
        }),
{
    if !is_framed_exec(data) || !matches_novation_header(data, device_id) {
        assert(old(leds)@ + Seq::<LedCommand>::empty() == old(leds)@);
        return false;
    }
    let end = data.len() - 1;
    let command = data[6];
    if command == 0x0a {
        legacy_pairs_exec(data, max_led_index, leds);
    } else if command == 0x0b {
        legacy_quads_exec(data, max_led_index, leds);
    } else if command == 0x0c || command == 0x0d {
        if data.len() < 9 {
            assert(old(leds)@ + Seq::<LedCommand>::empty() == old(leds)@);
            return true;
        }
        legacy_line_exec(data, map, data[7], command == 0x0c, leds);
    } else if command == 0x0e {
        let velocity = data[7];
        let mut led: u16 = 0;
        while led <= max_led_index as u16
            invariant
                led <= max_led_index + 1,
                leds@ == old(leds)@ + legacy_fill(velocity, max_led_index).take(led as int),
            decreases max_led_index + 1 - led,
        {
            leds.push(LedCommand::Novation { index: led as u8, velocity });
            proof {
                assert(legacy_fill(velocity, max_led_index).take(led + 1) == legacy_fill(
                    velocity,
                    max_led_index,
                ).take(led as int).push(LedCommand::Novation { index: led as u8, velocity }));
            }
            led += 1;
        }
        proof {
            assert(legacy_fill(velocity, max_led_index).take(led as int) == legacy_fill(
                velocity,
                max_led_index,
            ));
        }
    } else if command == 0x0f {
        if data.len() < 11 || data[7] > 1 {
            assert(old(leds)@ + Seq::<LedCommand>::empty() == old(leds)@);
            return true;
        }
        legacy_frame_exec(data, map, data[7], leds);
    } else {
        assert(old(leds)@ + Seq::<LedCommand>::empty() == old(leds)@);
    }
    true
}

} // verus!
