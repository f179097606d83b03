//! The spread lookup table: one row (tag, dense, spread) for each 16-bit
//! value, in increasing order of the value.
use vstd::prelude::*;

use crate::util::{
    even_part, lemma_even_odd_parts, lemma_spread_bounds, lemma_spread_injective,
    lemma_spread_interleave_unique, lemma_spread_unfold, odd_part, spread, spread_u16,
};

verus! {

/// Number of rows of the table.
pub const TABLE_ROWS: usize = 65536;

/// The tag of a 16-bit value: 0 below 2^8, then one more for each further
/// bit of length, up to 8 for values of 2^15 and above.
pub open spec fn tag_of(x: nat) -> u8 {
    if x < 0x100 {
        0
    } else if x < 0x200 {
        1
    } else if x < 0x400 {
        2
    } else if x < 0x800 {
        3
    } else if x < 0x1000 {
        4
    } else if x < 0x2000 {
        5
    } else if x < 0x4000 {
        6
    } else if x < 0x8000 {
        7
    } else {
        8
    }
}

/// The number of bits below which every value with tag at most `t` lies.
pub open spec fn tag_bits(t: nat) -> nat {
    8 + t
}

/// Is (tag, dense, spread) a row of the table?
pub open spec fn is_table_row(tag: int, dense: int, spread_value: int) -> bool {
    0 <= dense < 65536 && tag == tag_of(dense as nat) && spread_value == spread(dense as nat)
}

/// A (tag, dense, spread) triple for one 16-bit value.
#[derive(Clone, Copy, Debug, PartialEq, Eq, Structural)]
pub struct SpreadWord {
    pub tag: u8,
    pub dense: u16,
    pub spread: u32,
}

impl SpreadWord {
    pub open spec fn is_row(self) -> bool {
        is_table_row(self.tag as int, self.dense as int, self.spread as int)
    }

    /// The row of the table for `dense`.
    pub fn new(dense: u16) -> (r: SpreadWord)
        ensures
            r.dense == dense,
            r.is_row(),
    {
        SpreadWord { tag: get_tag(dense), dense, spread: spread_u16(dense) }
    }

    /// The row of the table for `dense`, or `None` when `dense` does not fit
    /// in 16 bits (no row of the table holds it).
    pub fn try_new(dense: u64) -> (r: Option<SpreadWord>)
        ensures
            dense < 65536 <==> r.is_some(),
            r matches Some(w) ==> w.dense == dense && w.is_row(),
    {
        if dense < 65536 {
            Some(SpreadWord::new(dense as u16))
        } else {
            None
        }
    }
}

/// Tag of a 16-bit input.
pub fn get_tag(input: u16) -> (r: u8)
    ensures
        r == tag_of(input as nat),
{
    if input < 0x100 {
        0
    } else if input < 0x200 {
        1
    } else if input < 0x400 {
        2
    } else if input < 0x800 {
        3
    } else if input < 0x1000 {
        4
    } else if input < 0x2000 {
        5
    } else if input < 0x4000 {
        6
    } else if input < 0x8000 {
        7
    } else {
        8
    }
}

/// A bound on the tag bounds the value: tag at most `t` means below 2^(8+t).
pub proof fn lemma_tag_bound(x: nat, t: nat)
    requires
        x < 65536,
        t <= 7,
    ensures
        tag_of(x) <= t <==> x < vstd::arithmetic::power2::pow2(tag_bits(t)),
{
    vstd::arithmetic::power2::lemma2_to64();
}

/// The tag never decreases as the value grows.
pub proof fn lemma_tag_monotonic(x: nat, y: nat)
    requires
        x <= y,
    ensures
        tag_of(x) <= tag_of(y),
{
}

/// The full table, rows in increasing order of the dense value.
pub struct SpreadTable {
    pub rows: Vec<SpreadWord>,
}

impl SpreadTable {
    pub open spec fn row_of(i: int) -> SpreadWord {
        SpreadWord { tag: tag_of(i as nat), dense: i as u16, spread: spread(i as nat) as u32 }
    }

    pub open spec fn wf(&self) -> bool {
        &&& self.rows@.len() == TABLE_ROWS
        &&& forall|i: int|
            0 <= i < TABLE_ROWS ==> #[trigger] self.rows@[i] == SpreadTable::row_of(i)
    }

    /// Builds the table. The tag steps up at each power of two from 2^8 to
    /// 2^15; the spread is recomputed on even rows and is one more than the
    /// previous row's on odd rows.
    pub fn generate() -> (t: SpreadTable)
        ensures
            t.wf(),
    {
        let mut rows: Vec<SpreadWord> = Vec::new();
        let mut tag: u8 = 0;
        let mut spread_value: u32 = 0;
        let mut i: usize = 0;
        while i < TABLE_ROWS
            invariant
                i <= TABLE_ROWS,
                rows@.len() == i,
                forall|k: int| 0 <= k < i ==> #[trigger] rows@[k] == SpreadTable::row_of(k),
                i < TABLE_ROWS ==> tag == tag_of(i as nat),
                i < TABLE_ROWS ==> spread_value == spread(i as nat),
            decreases TABLE_ROWS - i,
        {
            proof {
                lemma_spread_bounds(i as nat);
            }
            rows.push(SpreadWord { tag, dense: i as u16, spread: spread_value });
            let next: usize = i + 1;
            if next < TABLE_ROWS {
                if next == 0x100 || next == 0x200 || next == 0x400 || next == 0x800 || next
                    == 0x1000 || next == 0x2000 || next == 0x4000 || next == 0x8000 {
                    tag = tag + 1;
                }
                if next % 2 == 0 {
                    spread_value = spread_u16(next as u16);
                } else {
                    proof {
                        lemma_spread_unfold(i as nat);
                        lemma_spread_unfold(next as nat);
                        assert(next / 2 == i / 2);
                    }
                    spread_value = spread_value + 1;
                }
            }
            i = next;
        }
        SpreadTable { rows }
    }

    /// Does the table hold the row (tag, dense, spread)?
    pub fn lookup(&self, tag: u64, dense: u64, spread_value: u64) -> (r: bool)
        requires
            self.wf(),
        ensures
            r == is_table_row(tag as int, dense as int, spread_value as int),
    {
        if dense >= 65536 {
            false
        } else {
            let row = self.rows[dense as usize];
            proof {
                lemma_spread_bounds(dense as nat);
            }
            row.tag as u64 == tag && row.spread as u64 == spread_value
        }
    }
}

/// Two tables that `generate` may return hold the same rows in the same
/// order: building the table again gives the same table.
pub proof fn lemma_generate_deterministic(t1: SpreadTable, t2: SpreadTable)
    requires
        t1.wf(),
        t2.wf(),
    ensures
        t1.rows@ == t2.rows@,
{
    assert(t1.rows@ =~= t2.rows@);
}

/// Each 16-bit value has exactly one row: its spread belongs to it alone, and
/// the tag and spread of the row are those of the value.
pub proof fn lemma_table_bijection(d1: u16, d2: u16)
    ensures
        is_table_row(tag_of(d1 as nat) as int, d1 as int, spread(d1 as nat) as int),
        spread(d1 as nat) == spread(d2 as nat) ==> d1 == d2,
        forall|t: int, s: int|
            is_table_row(t, d1 as int, s) ==> t == tag_of(d1 as nat) && s == spread(d1 as nat),
{
    if spread(d1 as nat) == spread(d2 as nat) {
        lemma_spread_injective(d1 as nat, d2 as nat);
    }
}

/// No row holds a value with a bit set at an odd position: such a value is
/// not the spread of any 16-bit value, so its lookup cannot be satisfied.
pub proof fn lemma_odd_bits_not_in_table(tag: int, dense: int, s: nat)
    requires
        odd_part(s) != 0,
    ensures
        !is_table_row(tag, dense, s as int),
{
    if is_table_row(tag, dense, s as int) {
        lemma_even_odd_parts(s);
        assert(spread(0) == 0);
        lemma_spread_interleave_unique(dense as nat, 0, even_part(s), odd_part(s));
    }
}

} // verus!
