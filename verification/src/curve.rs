//! The transfer curve between 8-bit sRGB levels and linear light.
//!
//! The curve is a table: entry `level` is the linear intensity, in
//! millionths, of the sRGB level `level`.  Shading is computed on linear
//! intensities; a level is decoded through the table and an intensity is
//! encoded by searching it.

use vstd::prelude::*;
use crate::types::UNIT;

verus! {

/// The number of levels of an 8-bit color component.
pub const LEVELS: usize = 256;

/// Whether `table` is a transfer curve: one entry per level, rising
/// strictly from zero to one.
pub open spec fn is_curve(table: Seq<u32>) -> bool {
    &&& table.len() == LEVELS
    &&& table[0] == 0
    &&& table[LEVELS - 1] == UNIT
    &&& forall|i: int, j: int| 0 <= i < j < LEVELS ==> table[i] < table[j]
}

/// The highest level at or below `level` whose intensity does not exceed
/// `value`; level zero where there is none.
pub open spec fn encode_from(table: Seq<u32>, value: int, level: int) -> int
    decreases level,
{
    if level <= 0 {
        0
    } else if table[level] <= value {
        level
    } else {
        encode_from(table, value, level - 1)
    }
}

/// The sRGB level that stands for the linear intensity `value`: the highest
/// level whose intensity does not exceed it.  Intensities below zero encode
/// as level 0 and intensities above one as level 255.
pub open spec fn encode(table: Seq<u32>, value: int) -> int {
    encode_from(table, value, LEVELS - 1)
}

/// On a curve, the level found by scanning down from `top` is the one level
/// that brackets `value`.
pub proof fn lemma_encode_bracket(table: Seq<u32>, value: int, level: int, top: int)
    requires
        is_curve(table),
        0 <= level <= top < LEVELS,
        level == 0 || table[level] <= value,
        top == level || table[level + 1] > value,
    ensures
        encode_from(table, value, top) == level,
    decreases top - level,
{
    if top > level {
        assert(level + 1 == top || table[level + 1] < table[top]);
        lemma_encode_bracket(table, value, level, top - 1);
    }
}

/// Decoding a level and encoding the result gives the level back.
pub proof fn lemma_encode_decode(table: Seq<u32>, level: int)
    requires
        is_curve(table),
        0 <= level < LEVELS,
    ensures
        encode(table, table[level] as int) == level,
{
    lemma_encode_bracket(table, table[level] as int, level, LEVELS - 1);
}

/// The encoded level is a level, and encoding does not fall when the
/// intensity rises.
pub proof fn lemma_encode_monotonic(table: Seq<u32>, low: int, high: int, top: int)
    requires
        0 <= top < LEVELS,
        table.len() == LEVELS,
        low <= high,
    ensures
        0 <= encode_from(table, low, top) <= encode_from(table, high, top) <= top,
    decreases top,
{
    if top > 0 {
        lemma_encode_monotonic(table, low, high, top - 1);
    }
}

/// A transfer curve that has been checked.
pub struct TransferCurve {
    table: Vec<u32>,
}

impl View for TransferCurve {
    type V = Seq<u32>;

    closed spec fn view(&self) -> Seq<u32> {
        self.table@
    }
}

impl TransferCurve {
    /// Whether the table held is a curve.
    pub open spec fn wf(&self) -> bool {
        is_curve(self@)
    }

    /// Accepts `table` exactly when it is a curve.
    pub fn new(table: Vec<u32>) -> (r: Option<TransferCurve>)
        ensures
            r.is_some() <==> is_curve(table@),
            r matches Some(curve) ==> curve@ == table@ && curve.wf(),
    {
        if table.len() != LEVELS {
            return None;
        }
        if table[0] != 0 || table[LEVELS - 1] != 1_000_000 {
            return None;
        }
        let mut i: usize = 1;
        while i < LEVELS
            invariant
                1 <= i <= LEVELS,
                table.len() == LEVELS,
                forall|a: int, b: int| 0 <= a < b < i ==> table[a] < table[b],
            decreases LEVELS - i,
        {
            if table[i - 1] >= table[i] {
                return None;
            }
            i += 1;
        }
        Some(TransferCurve { table })
    }

    /// The linear intensity of an sRGB level, in millionths.
    pub fn to_linear(&self, level: u8) -> (value: u32)
        requires
            self.wf(),
        ensures
            value == self@[level as int],
            value <= UNIT,
    {
        self.table[level as usize]
    }

    /// The sRGB level of a linear intensity given in millionths.
    pub fn from_linear(&self, value: i64) -> (level: u8)
        requires
            self.wf(),
        ensures
            level == encode(self@, value as int),
    {
        let mut low: usize = 0;
        let mut high: usize = LEVELS;
        while high - low > 1
            invariant
                0 <= low < high <= LEVELS,
                self.table@.len() == LEVELS,
                is_curve(self.table@),
                low == 0 || self.table@[low as int] <= value,
                high == LEVELS || self.table@[high as int] > value,
            decreases high - low,
        {
            let mid: usize = low + (high - low) / 2;
            if (self.table[mid] as i64) <= value {
                low = mid;
            } else {
                high = mid;
            }
        }
        proof {
            lemma_encode_bracket(self.table@, value as int, low as int, LEVELS - 1);
        }
        low as u8
    }
}

} // verus!
