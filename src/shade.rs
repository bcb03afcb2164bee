//! Quantisation of a lighting value into a printable shading character.
use vstd::prelude::*;
use crate::fixed::UNIT;

verus! {

/// Number of characters in the shading ramp.
pub const PALETTE_LEN: usize = 70;

/// The shading ramp, darkest first: the character at position `i`.
/// Positions from 69 on all give the brightest character.
pub open spec fn palette_at(i: usize) -> char {
    match i {
        0 => ' ',
        1 => '.',
        2 => '\'',
        3 => '`',
        4 => '^',
        5 => '"',
        6 => ',',
        7 => ':',
        8 => ';',
        9 => 'I',
        10 => 'l',
        11 => '!',
        12 => 'i',
        13 => '>',
        14 => '<',
        15 => '~',
        16 => '+',
        17 => '_',
        18 => '-',
        19 => '?',
        20 => ']',
        21 => '[',
        22 => '}',
        23 => '{',
        24 => '1',
        25 => ')',
        26 => '(',
        27 => '|',
        28 => '\\',
        29 => '/',
        30 => 't',
        31 => 'f',
        32 => 'j',
        33 => 'r',
        34 => 'x',
        35 => 'n',
        36 => 'u',
        37 => 'v',
        38 => 'c',
        39 => 'z',
        40 => 'X',
        41 => 'Y',
        42 => 'U',
        43 => 'J',
        44 => 'C',
        45 => 'L',
        46 => 'Q',
        47 => '0',
        48 => 'O',
        49 => 'Z',
        50 => 'm',
        51 => 'w',
        52 => 'q',
        53 => 'p',
        54 => 'd',
        55 => 'b',
        56 => 'k',
        57 => 'h',
        58 => 'a',
        59 => 'o',
        60 => '*',
        61 => '#',
        62 => 'M',
        63 => 'W',
        64 => '&',
        65 => '8',
        66 => '%',
        67 => 'B',
        68 => '@',
        _ => '$',
    }
}

/// The ramp position of a lighting value given in fixed-point units:
/// negative values count as zero, the value is scaled by the ramp length,
/// rounded to the nearest integer (halves upwards) and capped at the last position.
pub open spec fn shade_level(light: int) -> int {
    if light <= 0 {
        0
    } else {
        let q = (2 * light * PALETTE_LEN + UNIT) / (2 * UNIT);
        if q > PALETTE_LEN - 1 {
            PALETTE_LEN - 1
        } else {
            q
        }
    }
}

/// The character of the ramp at position `i`.
pub fn palette_char(i: usize) -> (r: char)
    requires
        i < PALETTE_LEN,
    ensures
        r == palette_at(i),
{
    match i {
            0 => ' ',
            1 => '.',
            2 => '\'',
            3 => '`',
            4 => '^',
            5 => '"',
            6 => ',',
            7 => ':',
            8 => ';',
            9 => 'I',
            10 => 'l',
            11 => '!',
            12 => 'i',
            13 => '>',
            14 => '<',
            15 => '~',
            16 => '+',
            17 => '_',
            18 => '-',
            19 => '?',
            20 => ']',
            21 => '[',
            22 => '}',
            23 => '{',
            24 => '1',
            25 => ')',
            26 => '(',
            27 => '|',
            28 => '\\',
            29 => '/',
            30 => 't',
            31 => 'f',
            32 => 'j',
            33 => 'r',
            34 => 'x',
            35 => 'n',
            36 => 'u',
            37 => 'v',
            38 => 'c',
            39 => 'z',
            40 => 'X',
            41 => 'Y',
            42 => 'U',
            43 => 'J',
            44 => 'C',
            45 => 'L',
            46 => 'Q',
            47 => '0',
            48 => 'O',
            49 => 'Z',
            50 => 'm',
            51 => 'w',
            52 => 'q',
            53 => 'p',
            54 => 'd',
            55 => 'b',
            56 => 'k',
            57 => 'h',
            58 => 'a',
            59 => 'o',
            60 => '*',
            61 => '#',
            62 => 'M',
            63 => 'W',
            64 => '&',
            65 => '8',
            66 => '%',
            67 => 'B',
            68 => '@',
        _ => '$',
    }
}

/// The ramp position for a lighting value in fixed-point units; always on the ramp.
pub fn shade_index(light: i64) -> (r: usize)
    ensures
        r as int == shade_level(light as int),
        r < PALETTE_LEN,
{
    if light <= 0 {
        0
    } else {
        let l = light as u128;
        assert(2 * l * 70 <= 140 * 0x7fff_ffff_ffff_ffff) by (nonlinear_arith)
            requires
                l <= 0x7fff_ffff_ffff_ffff,
        ;
        let q: u128 = (2 * l * (PALETTE_LEN as u128) + (UNIT as u128)) / (2 * (UNIT as u128));
        if q > (PALETTE_LEN - 1) as u128 {
            PALETTE_LEN - 1
        } else {
            q as usize
        }
    }
}

/// The shading character for a lighting value in fixed-point units.
pub fn shade_char(light: i64) -> (r: char)
    ensures
        r == palette_at(shade_level(light as int) as usize),
        exists|i: usize| i < PALETTE_LEN && r == #[trigger] palette_at(i),
{
    let i = shade_index(light);
    palette_char(i)
}

/// A brighter lighting value never maps to a darker position of the ramp.
pub proof fn lemma_shade_monotonic(a: int, b: int)
    requires
        a <= b,
    ensures
        shade_level(a) <= shade_level(b),
{
    if a > 0 {
        vstd::arithmetic::div_mod::lemma_div_is_ordered(
            2 * a * PALETTE_LEN + UNIT,
            2 * b * PALETTE_LEN + UNIT,
            2 * UNIT,
        );
    }
}

/// Every lighting value, however large or negative, maps to a position on the ramp.
pub proof fn lemma_shade_total(light: int)
    ensures
        0 <= shade_level(light) < PALETTE_LEN,
{
    if light > 0 {
        vstd::arithmetic::div_mod::lemma_div_pos_is_pos(2 * light * PALETTE_LEN + UNIT, 2 * UNIT);
    }
}

} // verus!
