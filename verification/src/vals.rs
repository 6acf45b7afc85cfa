//! Fixed tables and constants that devices and this library must agree on.

use vstd::prelude::*;

verus! {

/// The seed that devices use when none was configured.
pub const DEFAULT_SEED: &'static str = "MPSJKMDHAI";

/// The encrypted-seed token that stands for [`DEFAULT_SEED`].
pub const DEFAULT_DES: &'static str = "DB.B5.CB.D6.11.17.D6.EB";

/// The symbols that passwords are written in, digits before letters.
pub const ALPHANUM: [char; 36] = [
    '0', '1', '2', '3', '4', '5', '6', '7', '8', '9', 'A', 'B', 'C', 'D', 'E', 'F', 'G', 'H', 'I',
    'J', 'K', 'L', 'M', 'N', 'O', 'P', 'Q', 'R', 'S', 'T', 'U', 'V', 'W', 'X', 'Y', 'Z',
];

/// The first five values of the date key, one row per weekday, Monday first.
pub const TABLE1: [[u32; 5]; 7] = [
    [15, 15, 24, 20, 24],
    [13, 14, 27, 32, 10],
    [29, 14, 32, 29, 24],
    [23, 32, 24, 29, 29],
    [14, 29, 10, 21, 29],
    [34, 27, 16, 23, 30],
    [14, 22, 24, 17, 13],
];

/// Six ways to reorder ten values; each row names, for every place of the
/// result, the place of the input that goes there.
pub const TABLE2: [[usize; 10]; 6] = [
    [0, 1, 2, 9, 3, 4, 5, 6, 7, 8],
    [1, 4, 3, 9, 0, 7, 8, 2, 5, 6],
    [7, 2, 8, 9, 4, 1, 6, 0, 3, 5],
    [6, 3, 5, 9, 1, 8, 2, 7, 4, 0],
    [4, 7, 0, 9, 5, 2, 3, 1, 8, 6],
    [5, 6, 1, 9, 8, 0, 4, 3, 2, 7],
];

/// The key under which seeds are encrypted for a device configuration.
pub const DES_KEY: [u8; 8] = [20, 157, 64, 213, 193, 46, 85, 2];

/// The initialization vector of that encryption.
pub const DES_IV: [u8; 8] = [0, 0, 0, 0, 0, 0, 0, 0];

} // verus!
