use vstd::prelude::*;

use crate::coords::EditorY;

verus! {

/// How many lines of text the calculator handles.
pub const MAX_LINE_COUNT: usize = 64;

/// A set of lines, such as those that have to be drawn again.
#[derive(Clone, Copy)]
pub struct EditorRowFlags {
    bitset: u64,
}

spec fn bit(bitset: u64, row: u64) -> bool {
    bitset & (1u64 << row) != 0
}

proof fn lemma_bit_of_single(a: u64, b: u64)
    requires
        a < 64,
        b < 64,
    ensures
        bit(1u64 << a, b) == (a == b),
{
    assert(a < 64 && b < 64 ==> (((1u64 << a) & (1u64 << b) != 0) == (a == b))) by (bit_vector);
}

proof fn lemma_bit_of_union(x: u64, y: u64, row: u64)
    requires
        row < 64,
    ensures
        bit(x | y, row) == (bit(x, row) || bit(y, row)),
{
    assert(((x | y) & (1u64 << row) != 0) == ((x & (1u64 << row) != 0) || (y & (1u64 << row)
        != 0))) by (bit_vector);
}

proof fn lemma_bit_of_upper_rows(n: u64, row: u64)
    requires
        n < 64,
        row < 64,
    ensures
        (1u64 << n) >= 1,
        bit(!(((1u64 << n) - 1) as u64), row) == (n <= row),
{
    assert(n < 64 ==> (1u64 << n) >= 1) by (bit_vector);
    assert(n < 64 && row < 64 ==> ((!(((1u64 << n) - 1) as u64) & (1u64 << row) != 0) == (n <= row)))
        by (bit_vector);
}

proof fn lemma_bit_of_range(from: u64, to: u64, row: u64)
    requires
        from <= to < 64,
        row < 64,
    ensures
        (1u64 << to) >= 1,
        (1u64 << from) >= 1,
        bit(
            ((((1u64 << to) - 1) as u64) ^ (((1u64 << from) - 1) as u64)) | (1u64 << to),
            row,
        ) == (from <= row <= to),
{
    assert(to < 64 ==> (1u64 << to) >= 1) by (bit_vector);
    assert(from < 64 ==> (1u64 << from) >= 1) by (bit_vector);
    assert(from <= to && to < 64 && row < 64 ==> (((((((1u64 << to) - 1) as u64) ^ (((1u64 << from) - 1) as u64)) | (
    1u64 << to)) & (1u64 << row) != 0) == (from <= row && row <= to))) by (bit_vector);
}

impl EditorRowFlags {
    /// Whether `row` is in the set.
    pub closed spec fn has(self, row: int) -> bool {
        0 <= row < 64 && bit(self.bitset, row as u64)
    }

    /// The rows that are in the set.
    pub open spec fn rows(self) -> Set<int> {
        Set::new(|row: int| self.has(row))
    }

    pub fn single_row(row_index: usize) -> (r: EditorRowFlags)
        requires
            row_index < MAX_LINE_COUNT,
        ensures
            forall|row: int| #[trigger] r.has(row) == (row == row_index),
    {
        let bitset = 1u64 << row_index;
        let r = EditorRowFlags { bitset };
        proof {
            assert forall|row: int| #[trigger] r.has(row) == (row == row_index) by {
                if 0 <= row < 64 {
                    lemma_bit_of_single(row_index as u64, row as u64);
                }
            }
        }
        r
    }

    pub fn clear(&mut self)
        ensures
            forall|row: int| !#[trigger] final(self).has(row),
    {
        self.bitset = 0;
        proof {
            assert forall|row: int| !#[trigger] self.has(row) by {
                let b = row as u64;
                assert(0u64 & (1u64 << b) == 0) by (bit_vector);
            }
        }
    }

    pub fn all_rows_starting_at(row_index: usize) -> (r: EditorRowFlags)
        requires
            row_index < MAX_LINE_COUNT,
        ensures
            forall|row: int| #[trigger] r.has(row) == (row_index <= row < MAX_LINE_COUNT),
    {
        let s = 1u64 << row_index;
        proof {
            lemma_bit_of_upper_rows(row_index as u64, 0);
        }
        let right_to_s_bits: u64 = s - 1;
        let left_to_s_and_s_bits = !right_to_s_bits;
        let r = EditorRowFlags { bitset: left_to_s_and_s_bits };
        proof {
            assert forall|row: int| #[trigger]
                r.has(row) == (row_index <= row < MAX_LINE_COUNT) by {
                if 0 <= row < 64 {
                    lemma_bit_of_upper_rows(row_index as u64, row as u64);
                }
            }
        }
        r
    }

    pub fn multiple(indices: &[usize]) -> (r: EditorRowFlags)
        requires
            forall|i: int| 0 <= i < indices@.len() ==> indices@[i] < MAX_LINE_COUNT,
        ensures
            forall|row: int| #[trigger]
                r.has(row) == (exists|i: int| 0 <= i < indices@.len() && indices@[i] == row),
    {
        let mut b: u64 = 0;
        let ghost none = EditorRowFlags { bitset: 0 };
        proof {
            assert forall|row: int| !#[trigger] none.has(row) by {
                let b = row as u64;
                assert(0u64 & (1u64 << b) == 0) by (bit_vector);
            }
        }
        let mut i: usize = 0;
        while i < indices.len()
            invariant
                i <= indices@.len(),
                forall|k: int| 0 <= k < indices@.len() ==> indices@[k] < MAX_LINE_COUNT,
                forall|row: int| #[trigger]
                    (EditorRowFlags { bitset: b }).has(row) == (exists|k: int|
                        0 <= k < i && indices@[k] == row),
            decreases indices@.len() - i,
        {
            let row_index = indices[i];
            let ghost before = EditorRowFlags { bitset: b };
            b = b | (1u64 << row_index);
            proof {
                let after = EditorRowFlags { bitset: b };
                assert forall|row: int| #[trigger] after.has(row) == (exists|k: int|
                    0 <= k < i + 1 && indices@[k] == row) by {
                    assert(before.has(row) == (exists|k: int| 0 <= k < i && indices@[k] == row));
                    if 0 <= row < 64 {
                        lemma_bit_of_union(before.bitset, 1u64 << row_index, row as u64);
                        lemma_bit_of_single(row_index as u64, row as u64);
                    }
                }
            }
            i += 1;
        }
        EditorRowFlags { bitset: b }
    }

    pub fn range(from: usize, to: usize) -> (r: EditorRowFlags)
        requires
            from <= to < MAX_LINE_COUNT,
        ensures
            forall|row: int| #[trigger] r.has(row) == (from <= row <= to),
    {
        proof {
            lemma_bit_of_range(from as u64, to as u64, 0);
        }
        let top = 1u64 << to;
        let right_to_top_bits: u64 = top - 1;
        let bottom = 1u64 << from;
        let right_to_bottom_bits: u64 = bottom - 1;
        let bitset = (right_to_top_bits ^ right_to_bottom_bits) | top;
        let r = EditorRowFlags { bitset };
        proof {
            assert forall|row: int| #[trigger] r.has(row) == (from <= row <= to) by {
                if 0 <= row < 64 {
                    lemma_bit_of_range(from as u64, to as u64, row as u64);
                }
            }
        }
        r
    }

    pub fn merge(&mut self, other: EditorRowFlags)
        ensures
            forall|row: int| #[trigger]
                final(self).has(row) == (old(self).has(row) || other.has(row)),
    {
        let ghost before = *self;
        self.bitset = self.bitset | other.bitset;
        proof {
            assert forall|row: int| #[trigger]
                self.has(row) == (before.has(row) || other.has(row)) by {
                if 0 <= row < 64 {
                    lemma_bit_of_union(before.bitset, other.bitset, row as u64);
                }
            }
        }
    }

    pub fn need(&self, line_index: EditorY) -> (r: bool)
        requires
            line_index.0 < MAX_LINE_COUNT,
        ensures
            r == self.has(line_index.0 as int),
    {
        let row = line_index.0;
        let bitset = self.bitset;
        assert((1u64 << row) & bitset == bitset & (1u64 << (row as u64))) by (bit_vector)
            requires
                row < 64,
        ;
        ((1u64 << row) & bitset) != 0
    }
}

} // verus!
