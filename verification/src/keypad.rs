//! The scan of the key pad: twelve keys in four rows of three.
//!
//! Each key bridges its row to its column. With pull-ups on both, a column
//! reads low exactly while one of its keys is down and that key's row is
//! driven low. The owner of the lines drives each row low in turn and notes
//! what the columns read; `Keypad` says which key that means.

use vstd::prelude::*;

verus! {

/// Number of rows of the pad.
pub const ROWS: usize = 4;

/// Number of columns of the pad.
pub const COLUMNS: usize = 3;

/// The index of the key at a row and a column: keys count along the rows.
pub open spec fn key_index(row: int, column: int) -> int {
    row * 3 + column
}

/// Whether the key with index `key` is down, in what one scan read:
/// `low[r][c]` says that column `c` read low while row `r` was driven low.
pub open spec fn is_down(low: [[bool; 3]; 4], key: int) -> bool {
    low[key / 3][key % 3]
}

/// The key pad.
pub struct Keypad {}

impl Keypad {
    /// A key pad. It remembers nothing from scan to scan.
    pub fn new() -> (keypad: Self) {
        Keypad {  }
    }

    /// The key that is down, or `None` where none is. Where several are, the
    /// one with the lowest index wins: the first met going through the rows
    /// from the top and through each row from the left. Nothing is debounced
    /// here.
    pub fn get_key(&self, low: &[[bool; 3]; 4]) -> (key: Option<u8>)
        ensures
            match key {
                Some(k) => {
                    &&& k < 12
                    &&& is_down(*low, k as int)
                    &&& forall|j: int| 0 <= j < k ==> !is_down(*low, j)
                },
                None => forall|j: int| 0 <= j < 12 ==> !is_down(*low, j),
            },
    {
        let mut row: usize = 0;
        while row < ROWS
            invariant
                0 <= row <= 4,
                forall|j: int| 0 <= j < key_index(row as int, 0) ==> !is_down(*low, j),
            decreases 4 - row,
        {
            let mut column: usize = 0;
            while column < COLUMNS
                invariant
                    0 <= row < 4,
                    0 <= column <= 3,
                    forall|j: int|
                        0 <= j < key_index(row as int, column as int) ==> !is_down(*low, j),
                decreases 3 - column,
            {
                if low[row][column] {
                    return Some((row * 3 + column) as u8);
                }
                assert forall|j: int|
                    0 <= j < key_index(row as int, column as int + 1) implies !is_down(
                    *low,
                    j,
                ) by {
                    if j == key_index(row as int, column as int) {
                        assert(j / 3 == row && j % 3 == column);
                    }
                }
                column += 1;
            }
            row += 1;
        }
        None
    }
}

} // verus!
