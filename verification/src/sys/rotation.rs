//! Rotation of the surface: how LED and pad indexes on the 10x10 layout
//! (row-major, without the four corners) map between the physical and the
//! logical orientation.

use vstd::prelude::*;

verus! {

/// How the device is turned.
#[derive(Copy, Clone, Debug, PartialEq, Eq, Structural)]
pub enum Rotation {
    Default,
    Left,
    Right,
    UpsideDown,
}

/// The current rotation, held by the runtime; it is not stored in flash.
pub struct RotationSlot {
    pub rotation: Rotation,
}

impl RotationSlot {
    /// The unrotated surface.
    pub fn new() -> (r: RotationSlot)
        ensures
            r.rotation == Rotation::Default,
    {
        RotationSlot { rotation: Rotation::Default }
    }

    /// The current rotation.
    pub fn get(&self) -> (r: Rotation)
        ensures
            r == self.rotation,
    {
        self.rotation
    }

    /// Sets the current rotation.
    pub fn set(&mut self, rotation: Rotation)
        ensures
            final(self).rotation == rotation,
    {
        self.rotation = rotation;
    }
}

/// Row and column of an index on the layout; `None` off the layout and for
/// the corners.
pub open spec fn decode_spec(index: u8) -> Option<(u8, u8)> {
    if 1 <= index <= 8 {
        Some((0, index))
    } else if 91 <= index <= 98 {
        Some((9, (index - 90) as u8))
    } else if 10 <= index <= 89 && (index % 10 == 0 || index % 10 == 9) {
        Some(((index / 10) as u8, (index % 10) as u8))
    } else if 11 <= index <= 88 && 1 <= index % 10 <= 8 {
        Some(((index / 10) as u8, (index % 10) as u8))
    } else {
        None
    }
}

/// The index of a row and column.
pub open spec fn encode_spec(row: u8, col: u8) -> u8 {
    if row == 0 {
        col
    } else if row == 9 {
        (90 + col) as u8
    } else if col == 0 {
        (row * 10) as u8
    } else if col == 9 {
        (row * 10 + 9) as u8
    } else {
        (row * 10 + col) as u8
    }
}

/// A position turned by `rotation`, or turned back when `inverse`.
pub open spec fn rotate_spec(row: u8, col: u8, rotation: Rotation, inverse: bool) -> (u8, u8) {
    let left = (rotation == Rotation::Left && !inverse) || (rotation == Rotation::Right && inverse);
    let right = (rotation == Rotation::Right && !inverse) || (rotation == Rotation::Left && inverse);
    if rotation == Rotation::Default {
        (row, col)
    } else if left {
        (col, (9 - row) as u8)
    } else if right {
        ((9 - col) as u8, row)
    } else {
        ((9 - row) as u8, (9 - col) as u8)
    }
}

/// A row or column of the 8x8 grid.
pub open spec fn is_grid_axis_spec(value: u8) -> bool {
    1 <= value <= 8
}

/// An index turned by `rotation` (or back when `inverse`); with `grid_only`,
/// only indexes of the 8x8 grid move. Indexes off the layout stay.
pub open spec fn apply_spec(index: u8, rotation: Rotation, inverse: bool, grid_only: bool) -> u8 {
    if index == 99 {
        99
    } else {
        match decode_spec(index) {
            None => index,
            Some((row, col)) => if grid_only && !(is_grid_axis_spec(row) && is_grid_axis_spec(col)) {
                index
            } else {
                let (r, c) = rotate_spec(row, col, rotation, inverse);
                encode_spec(r, c)
            },
        }
    }
}

/// Row and column of an index on the layout.
pub fn decode(index: u8) -> (r: Option<(u8, u8)>)
    ensures
        r == decode_spec(index),
{
    if 1 <= index && index <= 8 {
        Some((0, index))
    } else if 91 <= index && index <= 98 {
        Some((9, index - 90))
    } else if 10 <= index && index <= 89 && (index % 10 == 0 || index % 10 == 9) {
        Some((index / 10, index % 10))
    } else if 11 <= index && index <= 88 && 1 <= index % 10 && index % 10 <= 8 {
        Some((index / 10, index % 10))
    } else {
        None
    }
}

/// The index of a row and column of the layout.
pub fn encode(row: u8, col: u8) -> (r: u8)
    requires
        row <= 9,
        col <= 9,
    ensures
        r == encode_spec(row, col),
{
    if row == 0 {
        col
    } else if row == 9 {
        90 + col
    } else if col == 0 {
        row * 10
    } else if col == 9 {
        row * 10 + 9
    } else {
        row * 10 + col
    }
}

/// A row or column of the 8x8 grid.
pub fn is_grid_axis(value: u8) -> (r: bool)
    ensures
        r == is_grid_axis_spec(value),
{
    1 <= value && value <= 8
}

/// A position turned by `rotation`, or turned back when `inverse`.
pub fn rotate_coords(row: u8, col: u8, rotation: Rotation, inverse: bool) -> (r: (u8, u8))
    requires
        row <= 9,
        col <= 9,
    ensures
        r == rotate_spec(row, col, rotation, inverse),
{
    let effective = match (rotation, inverse) {
        (Rotation::Default, _) => Rotation::Default,
        (Rotation::Left, false) | (Rotation::Right, true) => Rotation::Left,
        (Rotation::Right, false) | (Rotation::Left, true) => Rotation::Right,
        (Rotation::UpsideDown, _) => Rotation::UpsideDown,
    };
    match effective {
        Rotation::Default => (row, col),
        Rotation::Left => (col, 9 - row),
        Rotation::Right => (9 - col, row),
        Rotation::UpsideDown => (9 - row, 9 - col),
    }
}

/// An index turned by `rotation` (or back when `inverse`), the whole layout
/// or only the 8x8 grid.
pub fn apply(index: u8, rotation: Rotation, inverse: bool, grid_only: bool) -> (r: u8)
    ensures
        r == apply_spec(index, rotation, inverse, grid_only),
{
    if index == 99 {
        return 99;
    }
    let (row, col) = match decode(index) {
        Some(x) => x,
        None => return index,
    };
    if grid_only && !(is_grid_axis(row) && is_grid_axis(col)) {
        return index;
    }
    let (row, col) = rotate_coords(row, col, rotation, inverse);
    encode(row, col)
}

/// Physical to logical index.
pub fn to_canonical(raw_index: u8, rotation: Rotation) -> (r: u8)
    ensures
        r == apply_spec(raw_index, rotation, false, false),
{
    apply(raw_index, rotation, false, false)
}

/// Logical to physical index.
pub fn to_raw(canonical_index: u8, rotation: Rotation) -> (r: u8)
    ensures
        r == apply_spec(canonical_index, rotation, true, false),
{
    apply(canonical_index, rotation, true, false)
}

/// Physical to logical index, the 8x8 grid only.
pub fn to_canonical_grid_only(raw_index: u8, rotation: Rotation) -> (r: u8)
    ensures
        r == apply_spec(raw_index, rotation, false, true),
{
    apply(raw_index, rotation, false, true)
}

/// Logical to physical index, the 8x8 grid only.
pub fn to_raw_grid_only(canonical_index: u8, rotation: Rotation) -> (r: u8)
    ensures
        r == apply_spec(canonical_index, rotation, true, true),
{
    apply(canonical_index, rotation, true, true)
}

/// A position of the layout: row and column at most 9, not a corner.
pub open spec fn on_layout(row: u8, col: u8) -> bool {
    row <= 9 && col <= 9 && !((row == 0 || row == 9) && (col == 0 || col == 9))
}

proof fn lemma_decode_encode(index: u8)
    ensures
        decode_spec(index) matches Some((r, c)) ==> on_layout(r, c) && encode_spec(r, c) == index
            && index != 99,
{
}

proof fn lemma_encode_decode(row: u8, col: u8)
    requires
        on_layout(row, col),
    ensures
        decode_spec(encode_spec(row, col)) == Some((row, col)),
        encode_spec(row, col) != 99,
{
}

proof fn lemma_rotate_back(row: u8, col: u8, rotation: Rotation, inverse: bool)
    requires
        on_layout(row, col),
    ensures
        on_layout(rotate_spec(row, col, rotation, inverse).0, rotate_spec(row, col, rotation, inverse).1),
        rotate_spec(
            rotate_spec(row, col, rotation, inverse).0,
            rotate_spec(row, col, rotation, inverse).1,
            rotation,
            !inverse,
        ) == (row, col),
        (is_grid_axis_spec(row) && is_grid_axis_spec(col)) == (is_grid_axis_spec(
            rotate_spec(row, col, rotation, inverse).0,
        ) && is_grid_axis_spec(rotate_spec(row, col, rotation, inverse).1)),
{
}

/// Turning an index and turning it back gives it again, either way round,
/// for the whole layout and for the grid alone.
pub proof fn lemma_rotation_roundtrip(index: u8, rotation: Rotation, grid_only: bool)
    ensures
        apply_spec(apply_spec(index, rotation, false, grid_only), rotation, true, grid_only)
            == index,
        apply_spec(apply_spec(index, rotation, true, grid_only), rotation, false, grid_only)
            == index,
{
    lemma_decode_encode(index);
    if let Some((row, col)) = decode_spec(index) {
        lemma_rotate_back(row, col, rotation, false);
        lemma_rotate_back(row, col, rotation, true);
        let (r1, c1) = rotate_spec(row, col, rotation, false);
        let (r2, c2) = rotate_spec(row, col, rotation, true);
        lemma_encode_decode(r1, c1);
        lemma_encode_decode(r2, c2);
    }
}

/// The unrotated surface leaves every position and every index where it
/// is, both ways, for the whole layout and for the grid alone.
pub proof fn lemma_default_keeps_every_index(index: u8, row: u8, col: u8, inverse: bool, grid_only: bool)
    ensures
        rotate_spec(row, col, Rotation::Default, inverse) == (row, col),
        apply_spec(index, Rotation::Default, inverse, grid_only) == index,
{
    lemma_decode_encode(index);
}

/// Two left quarter turns make the half turn, a left turn is a right turn
/// undone, and the half turn undoes itself.
pub proof fn lemma_quarter_turns(index: u8, grid_only: bool)
    ensures
        apply_spec(apply_spec(index, Rotation::Left, false, grid_only), Rotation::Left, false, grid_only)
            == apply_spec(index, Rotation::UpsideDown, false, grid_only),
        apply_spec(index, Rotation::Left, false, grid_only) == apply_spec(
            index,
            Rotation::Right,
            true,
            grid_only,
        ),
        apply_spec(index, Rotation::UpsideDown, true, grid_only) == apply_spec(
            index,
            Rotation::UpsideDown,
            false,
            grid_only,
        ),
{
    lemma_decode_encode(index);
    if let Some((row, col)) = decode_spec(index) {
        lemma_rotate_back(row, col, Rotation::Left, false);
        let (r1, c1) = rotate_spec(row, col, Rotation::Left, false);
        lemma_encode_decode(r1, c1);
        lemma_rotate_back(r1, c1, Rotation::Left, false);
        let (r2, c2) = rotate_spec(row, col, Rotation::UpsideDown, false);
        lemma_rotate_back(row, col, Rotation::UpsideDown, false);
        lemma_encode_decode(r2, c2);
    }
}

/// A left turn takes the top row (indexes 1 to 8, left to right) onto the
/// right-hand column, top to bottom: index `c` goes to row `c`, column 9.
pub proof fn lemma_left_turns_top_row_to_right_column(c: u8)
    requires
        1 <= c <= 8,
    ensures
        apply_spec(c, Rotation::Left, false, false) == c * 10 + 9,
        decode_spec(apply_spec(c, Rotation::Left, false, false)) == Some((c, 9u8)),
{
}

} // verus!
