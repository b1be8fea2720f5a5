use vstd::prelude::*;
use crate::error::ClientError;

verus! {

/// A registry-wide snapshot: the length of the registry's log and the roots
/// of its log and map.
#[derive(Debug, Clone)]
pub struct Checkpoint {
    pub log_length: u64,
    pub log_root: Vec<u8>,
    pub map_root: Vec<u8>,
}

/// Two checkpoints that hold the same length and the same roots.
pub open spec fn same_checkpoint(a: Checkpoint, b: Checkpoint) -> bool {
    &&& a.log_length == b.log_length
    &&& a.log_root@ == b.log_root@
    &&& a.map_root@ == b.map_root@
}

/// How a newly observed checkpoint stands to the one trusted before.
#[derive(Debug, Clone, Copy, PartialEq, Eq)]
pub enum Progression {
    /// No checkpoint was trusted before.
    First,
    /// The new checkpoint is the one trusted before.
    Unchanged,
    /// The log grew from `from` to `to`: a consistency proof between the two
    /// roots is still owed.
    Extends { from: u64, to: u64 },
}

/// The verdict on `next` after `previous`.
pub open spec fn progression(previous: Option<Checkpoint>, next: Checkpoint) -> Result<Progression, ClientError> {
    match previous {
        None => Ok(Progression::First),
        Some(p) => if p.log_length > next.log_length {
            Err(ClientError::CheckpointLogLengthRewind { from: p.log_length, to: next.log_length })
        } else if p.log_length < next.log_length {
            Ok(Progression::Extends { from: p.log_length, to: next.log_length })
        } else if p.log_root@ == next.log_root@ && p.map_root@ == next.map_root@ {
            Ok(Progression::Unchanged)
        } else {
            Err(ClientError::CheckpointChangedLogRootOrMapRoot { log_length: p.log_length })
        },
    }
}

/// Byte-wise equality of two digests.
pub fn bytes_equal(a: &Vec<u8>, b: &Vec<u8>) -> (r: bool)
    ensures
        r == (a@ == b@),
{
    if a.len() != b.len() {
        return false;
    }
    let mut i: usize = 0;
    while i < a.len()
        invariant
            a@.len() == b@.len(),
            i <= a@.len(),
            forall|j: int| 0 <= j < i ==> a@[j] == b@[j],
        decreases a@.len() - i,
    {
        if a[i] != b[i] {
            return false;
        }
        i = i + 1;
    }
    assert(a@ =~= b@);
    true
}

impl Checkpoint {
    /// A copy of this checkpoint.
    pub fn copy(&self) -> (r: Checkpoint)
        ensures
            same_checkpoint(r, *self),
    {
        let log_root = self.log_root.clone();
        let map_root = self.map_root.clone();
        assert(log_root@ =~= self.log_root@);
        assert(map_root@ =~= self.map_root@);
        Checkpoint { log_length: self.log_length, log_root, map_root }
    }

    /// Whether `self` and `other` hold the same length and roots.
    pub fn same_as(&self, other: &Checkpoint) -> (r: bool)
        ensures
            r == same_checkpoint(*self, *other),
    {
        self.log_length == other.log_length && bytes_equal(&self.log_root, &other.log_root)
            && bytes_equal(&self.map_root, &other.map_root)
    }
}

/// Checks that `next` is a monotonic, non-contradictory extension of the
/// checkpoint trusted before: a shorter log is a rewind, an equal length with
/// other roots is an equivocation, and a longer log still owes a consistency
/// proof.
pub fn verify_progression(previous: Option<&Checkpoint>, next: &Checkpoint) -> (r: Result<Progression, ClientError>)
    ensures
        r == progression(
            match previous {
                Some(p) => Some(*p),
                None => None,
            },
            *next,
        ),
{
    match previous {
        None => Ok(Progression::First),
        Some(p) => {
            if p.log_length > next.log_length {
                Err(ClientError::CheckpointLogLengthRewind { from: p.log_length, to: next.log_length })
            } else if p.log_length < next.log_length {
                Ok(Progression::Extends { from: p.log_length, to: next.log_length })
            } else if bytes_equal(&p.log_root, &next.log_root) && bytes_equal(&p.map_root, &next.map_root) {
                Ok(Progression::Unchanged)
            } else {
                Err(ClientError::CheckpointChangedLogRootOrMapRoot { log_length: p.log_length })
            }
        },
    }
}

/// A checkpoint whose log is shorter than the trusted one is refused as a
/// rewind.
pub proof fn lemma_rewind_rejected(previous: Checkpoint, next: Checkpoint)
    requires
        next.log_length < previous.log_length,
    ensures
        progression(Some(previous), next) == Err::<Progression, ClientError>(
            ClientError::CheckpointLogLengthRewind { from: previous.log_length, to: next.log_length },
        ),
{
}

/// A checkpoint of the trusted length but with another log root or map root
/// is refused as an equivocation.
pub proof fn lemma_equivocation_rejected(previous: Checkpoint, next: Checkpoint)
    requires
        next.log_length == previous.log_length,
        next.log_root@ != previous.log_root@ || next.map_root@ != previous.map_root@,
    ensures
        progression(Some(previous), next) == Err::<Progression, ClientError>(
            ClientError::CheckpointChangedLogRootOrMapRoot { log_length: previous.log_length },
        ),
{
}

} // verus!
