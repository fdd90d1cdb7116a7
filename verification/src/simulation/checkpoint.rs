use vstd::prelude::*;

verus! {

/// The byte that ends every record of a checkpoint.
pub const RECORD_END: u8 = 10;

/// Where the records of a checkpoint end: the header, then each completed record, and the
/// length of an unfinished record after them, which a resumed run discards.
#[derive(Debug, Clone, PartialEq, Eq)]
pub struct CheckpointLayout {
    pub header_end: usize,
    pub record_ends: Vec<usize>,
    pub discarded_tail_bytes: u64,
}

#[derive(Debug, Clone, Copy, PartialEq, Eq, Structural)]
pub enum CheckpointError {
    /// The header's line has no end.
    IncompleteHeader,
}

/// The offsets just after each line end among the first `count` bytes, in order.
pub open spec fn line_ends(bytes: Seq<u8>, count: nat) -> Seq<int>
    decreases count,
{
    if count == 0 || count > bytes.len() {
        seq![]
    } else if bytes[count - 1] == RECORD_END {
        line_ends(bytes, (count - 1) as nat).push(count as int)
    } else {
        line_ends(bytes, (count - 1) as nat)
    }
}

/// Every line end among the first `count` bytes lies within them.
proof fn lemma_line_ends_within(bytes: Seq<u8>, count: nat)
    requires
        count <= bytes.len(),
    ensures
        forall|index: int| 0 <= index < line_ends(bytes, count).len() ==> 0 < #[trigger] line_ends(bytes, count)[index] <= count,
    decreases count,
{
    if count > 0 {
        let earlier = line_ends(bytes, (count - 1) as nat);
        lemma_line_ends_within(bytes, (count - 1) as nat);
        assert forall|index: int| 0 <= index < line_ends(bytes, count).len() implies 0 < #[trigger] line_ends(
            bytes,
            count,
        )[index] <= count by {
            if index < earlier.len() {
                assert(line_ends(bytes, count)[index] == earlier[index]);
            }
        }
    }
}

impl CheckpointLayout {
    /// The bytes up to the end of the last completed line.
    pub open spec fn valid_len_spec(&self) -> int {
        if self.record_ends@.len() == 0 {
            self.header_end as int
        } else {
            self.record_ends@.last() as int
        }
    }

    pub fn valid_len(&self) -> (length: usize)
        ensures
            length == self.valid_len_spec(),
    {
        if self.record_ends.len() == 0 {
            self.header_end
        } else {
            self.record_ends[self.record_ends.len() - 1]
        }
    }
}

/// Splits the bytes of a checkpoint into its lines: the first line is the header, which must
/// be complete; each later complete line is a record; what follows the last line end is an
/// unfinished record.
pub fn split_checkpoint(bytes: &[u8]) -> (result: Result<CheckpointLayout, CheckpointError>)
    ensures
        ({
            let ends = line_ends(bytes@, bytes@.len());
            &&& result is Err <==> ends.len() == 0
            &&& result matches Ok(layout) ==> {
                &&& layout.header_end == ends[0]
                &&& layout.record_ends@.map_values(|end: usize| end as int) == ends.drop_first()
                &&& layout.discarded_tail_bytes == bytes@.len() - ends.last()
                &&& layout.valid_len_spec() == ends.last()
            }
        }),
{
    let mut ends: Vec<usize> = Vec::new();
    let mut index: usize = 0;
    while index < bytes.len()
        invariant
            index <= bytes@.len(),
            ends@.map_values(|end: usize| end as int) == line_ends(bytes@, index as nat),
        decreases bytes@.len() - index,
    {
        if bytes[index] == RECORD_END {
            ends.push(index + 1);
            assert(ends@.map_values(|end: usize| end as int) =~= line_ends(bytes@, (index + 1) as nat));
        }
        index = index + 1;
    }
    proof {
        lemma_line_ends_within(bytes@, bytes@.len());
    }
    if ends.len() == 0 {
        return Err(CheckpointError::IncompleteHeader);
    }
    let header_end = ends.remove(0);
    let ghost all = line_ends(bytes@, bytes@.len());
    assert(ends@.map_values(|end: usize| end as int) =~= all.drop_first());
    let valid = if ends.len() == 0 {
        header_end
    } else {
        ends[ends.len() - 1]
    };
    assert(valid == all.last());
    let layout = CheckpointLayout {
        header_end,
        record_ends: ends,
        discarded_tail_bytes: (bytes.len() - valid) as u64,
    };
    Ok(layout)
}

} // verus!
