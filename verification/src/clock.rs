//! Deriving a save's logical clock from its files.

use vstd::prelude::*;

verus! {

/// One regular file found under a save directory: its path relative to the
/// directory root, its contents, and its last-modification time in
/// nanoseconds since the epoch.
#[derive(Clone, Debug)]
pub struct LocalFile {
    pub path: Vec<u8>,
    pub data: Vec<u8>,
    pub modified: u64,
}

/// The logical clock of a list of files: the greatest modification time
/// among them, or zero when there are none.
pub open spec fn spec_derive_clock(files: Seq<LocalFile>) -> u64
    decreases files.len(),
{
    if files.len() == 0 {
        0u64
    } else {
        let rest = spec_derive_clock(files.drop_last());
        if files.last().modified > rest {
            files.last().modified
        } else {
            rest
        }
    }
}

/// The clock bounds every file's modification time, and is one of them
/// whenever any file exists.
pub proof fn lemma_derive_clock_is_max(files: Seq<LocalFile>)
    ensures
        forall|i: int| 0 <= i < files.len() ==> #[trigger] files[i].modified <= spec_derive_clock(files),
        files.len() > 0 ==> exists|i: int|
            0 <= i < files.len() && spec_derive_clock(files) == #[trigger] files[i].modified,
    decreases files.len(),
{
    if files.len() > 0 {
        lemma_derive_clock_is_max(files.drop_last());
        assert forall|i: int| 0 <= i < files.len() implies #[trigger] files[i].modified
            <= spec_derive_clock(files) by {
            if i < files.len() - 1 {
                assert(files.drop_last()[i] == files[i]);
            }
        }
        if files.last().modified > spec_derive_clock(files.drop_last()) {
            assert(spec_derive_clock(files) == files[files.len() - 1].modified);
        } else if files.len() > 1 {
            let j = choose|j: int|
                0 <= j < files.drop_last().len() && spec_derive_clock(files.drop_last())
                    == #[trigger] files.drop_last()[j].modified;
            assert(files[j].modified == spec_derive_clock(files));
        } else {
            assert(spec_derive_clock(files) == 0);
            assert(files[0].modified <= 0);
        }
    }
}

/// Walks the scanned files and returns the save's logical clock: the
/// maximum modification time, or zero for an empty list.
pub fn derive_clock(files: &Vec<LocalFile>) -> (clock: u64)
    ensures
        clock == spec_derive_clock(files@),
        forall|i: int| 0 <= i < files@.len() ==> #[trigger] files@[i].modified <= clock,
        files@.len() == 0 ==> clock == 0,
        files@.len() > 0 ==> exists|i: int| 0 <= i < files@.len() && clock == #[trigger] files@[i].modified,
{
    let mut clock: u64 = 0;
    let mut i: usize = 0;
    while i < files.len()
        invariant
            i <= files@.len(),
            clock == spec_derive_clock(files@.take(i as int)),
        decreases files@.len() - i,
    {
        proof {
            assert(files@.take(i + 1).drop_last() =~= files@.take(i as int));
            assert(files@.take(i + 1).last() == files@[i as int]);
        }
        if files[i].modified > clock {
            clock = files[i].modified;
        }
        i = i + 1;
    }
    proof {
        assert(files@.take(files@.len() as int) =~= files@);
        lemma_derive_clock_is_max(files@);
    }
    clock
}

} // verus!
