use vstd::prelude::*;
use crate::codec::{decode_record, encode_record, lemma_encode_decode, GreetingAccount};

verus! {

/// A 32-byte account or program identifier.
#[derive(Debug, Clone, Copy)]
pub struct Pubkey {
    pub bytes: [u8; 32],
}

impl Pubkey {
    pub fn new(bytes: [u8; 32]) -> (r: Pubkey)
        ensures
            r.bytes@ == bytes@,
    {
        Pubkey { bytes }
    }

    /// Whether both identifiers hold the same bytes.
    pub fn same_as(&self, other: &Pubkey) -> (r: bool)
        ensures
            r == (self.bytes@ == other.bytes@),
    {
        let mut i: usize = 0;
        while i < 32
            invariant
                i <= 32,
                forall|j: int| 0 <= j < i ==> self.bytes@[j] == other.bytes@[j],
            decreases 32 - i,
        {
            if self.bytes[i] != other.bytes[i] {
                return false;
            }
            i += 1;
        }
        assert(self.bytes@ =~= other.bytes@);
        true
    }
}

/// A storage buffer handed in by the host, tagged with the program that owns it.
#[derive(Debug)]
pub struct StorageSlot {
    pub owner: Pubkey,
    pub data: Vec<u8>,
}

/// Why an invocation had no effect.
#[derive(Debug, Clone, Copy, PartialEq, Eq, Structural)]
pub enum ProcessError {
    /// No storage slot was supplied.
    MissingAccount,
    /// The first slot is owned by another program.
    IncorrectOwner,
    /// Neither the slot's contents nor the input decode as a record.
    InvalidInputEncoding,
    /// The encoded record does not fit in the slot's buffer.
    BufferTooSmall,
}

/// The record to store: the slot's own record with its counter incremented
/// (wrapping at the maximum), else the record the input encodes with its
/// counter set to one, else nothing.
pub open spec fn next_record(data: Seq<u8>, input: Seq<u8>) -> Option<(Seq<char>, u32)> {
    match decode_record(data) {
        Some(rec) => Some((rec.0, if rec.1 == u32::MAX { 0u32 } else { (rec.1 + 1) as u32 })),
        None => match decode_record(input) {
            Some(rec) => Some((rec.0, 1u32)),
            None => None,
        },
    }
}

/// The first slot's new buffer after an invocation, or the error it ends with.
pub open spec fn outcome(program_id: Pubkey, slots: Seq<StorageSlot>, input: Seq<u8>) -> Result<
    Seq<u8>,
    ProcessError,
> {
    if slots.len() == 0 {
        Err(ProcessError::MissingAccount)
    } else if slots[0].owner.bytes@ != program_id.bytes@ {
        Err(ProcessError::IncorrectOwner)
    } else {
        match next_record(slots[0].data@, input) {
            None => Err(ProcessError::InvalidInputEncoding),
            Some(rec) => {
                let enc = encode_record(rec.0, rec.1);
                let data = slots[0].data@;
                if enc.len() > data.len() {
                    Err(ProcessError::BufferTooSmall)
                } else {
                    Ok(enc + data.subrange(enc.len() as int, data.len() as int))
                }
            },
        }
    }
}

/// Overwrites the start of `dst` with `src`, keeping the rest.
fn write_prefix(dst: &mut Vec<u8>, src: &Vec<u8>)
    requires
        src@.len() <= old(dst)@.len(),
    ensures
        final(dst)@ == src@ + old(dst)@.subrange(src@.len() as int, old(dst)@.len() as int),
{
    let mut i: usize = 0;
    while i < src.len()
        invariant
            src@.len() <= dst@.len(),
            dst@.len() == old(dst)@.len(),
            i <= src@.len(),
            forall|j: int| 0 <= j < i ==> dst@[j] == src@[j],
            forall|j: int| i <= j < dst@.len() ==> dst@[j] == old(dst)@[j],
        decreases src@.len() - i,
    {
        dst[i] = src[i];
        i += 1;
    }
    assert(dst@ =~= src@ + old(dst)@.subrange(src@.len() as int, old(dst)@.len() as int));
}

/// Handles one invocation: checks that the first slot belongs to
/// `program_id`, then increments the record it holds, or initialises it from
/// `input`, and writes the encoded record back at the start of the slot.
/// Nothing is changed when an error is returned.
pub fn process_instruction(program_id: &Pubkey, accounts: &mut Vec<StorageSlot>, input: &[u8]) -> (r:
    Result<(), ProcessError>)
    ensures
        match outcome(*program_id, old(accounts)@, input@) {
            Ok(new_data) => {
                &&& r is Ok
                &&& final(accounts)@.len() == old(accounts)@.len()
                &&& final(accounts)@[0].data@ == new_data
                &&& final(accounts)@[0].owner == old(accounts)@[0].owner
                &&& forall|i: int|
                    1 <= i < old(accounts)@.len() ==> final(accounts)@[i] == old(accounts)@[i]
            },
            Err(e) => r == Err::<(), ProcessError>(e) && final(accounts)@ == old(accounts)@,
        },
{
    if accounts.len() == 0 {
        return Err(ProcessError::MissingAccount);
    }
    if !accounts[0].owner.same_as(program_id) {
        return Err(ProcessError::IncorrectOwner);
    }
    let record = match GreetingAccount::try_from_slice(accounts[0].data.as_slice()) {
        Ok(a) => {
            proof {
                lemma_encode_decode(accounts[0].data@);
            }
            GreetingAccount { name: a.name, counter: a.counter.wrapping_add(1) }
        },
        Err(_) => match GreetingAccount::try_from_slice(input) {
            Ok(a) => {
                proof {
                    lemma_encode_decode(input@);
                }
                GreetingAccount { name: a.name, counter: 1 }
            },
            Err(_) => {
                return Err(ProcessError::InvalidInputEncoding);
            },
        },
    };
    let bytes = match record.try_to_vec() {
        Ok(v) => v,
        Err(_) => {
            return Err(ProcessError::BufferTooSmall);
        },
    };
    if bytes.len() > accounts[0].data.len() {
        return Err(ProcessError::BufferTooSmall);
    }
    write_prefix(&mut accounts[0].data, &bytes);
    Ok(())
}

} // verus!
