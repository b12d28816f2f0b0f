//! Properties of an invocation, stated over `outcome`, which
//! `process_instruction` follows exactly: on an error it changes nothing, on
//! success the first slot's buffer becomes the bytes that `outcome` gives.
use vstd::prelude::*;

use crate::codec::{decode_record, encode_record, lemma_decode_encode, lemma_encode_decode};
use crate::processor::{outcome, ProcessError, Pubkey, StorageSlot};

verus! {

/// A slot owned by another program is refused with `IncorrectOwner`,
/// whatever its buffer and the input hold.
pub proof fn lemma_ownership_gate(program_id: Pubkey, slots: Seq<StorageSlot>, input: Seq<u8>)
    requires
        slots.len() > 0,
        slots[0].owner.bytes@ != program_id.bytes@,
    ensures
        outcome(program_id, slots, input) == Err::<Seq<u8>, ProcessError>(
            ProcessError::IncorrectOwner,
        ),
{
}

/// Ownership is checked first: a slot that is both foreign and malformed is
/// refused with `IncorrectOwner`, never with `InvalidInputEncoding`.
pub proof fn lemma_owner_checked_first(program_id: Pubkey, slots: Seq<StorageSlot>, input: Seq<u8>)
    requires
        slots.len() > 0,
        slots[0].owner.bytes@ != program_id.bytes@,
        decode_record(slots[0].data@) is None,
    ensures
        outcome(program_id, slots, input) == Err::<Seq<u8>, ProcessError>(
            ProcessError::IncorrectOwner,
        ),
        outcome(program_id, slots, input) != Err::<Seq<u8>, ProcessError>(
            ProcessError::InvalidInputEncoding,
        ),
{
    lemma_ownership_gate(program_id, slots, input);
}

/// With no slot at all the invocation fails with `MissingAccount`, whatever the input.
pub proof fn lemma_no_accounts(program_id: Pubkey, slots: Seq<StorageSlot>, input: Seq<u8>)
    requires
        slots.len() == 0,
    ensures
        outcome(program_id, slots, input) == Err::<Seq<u8>, ProcessError>(
            ProcessError::MissingAccount,
        ),
{
}

/// An owned slot that holds no record is initialised from the input: the
/// input's name is kept and its counter replaced by one. When the buffer has
/// exactly the new encoding's length, it then decodes to that record.
pub proof fn lemma_init_path(
    program_id: Pubkey,
    slots: Seq<StorageSlot>,
    input: Seq<u8>,
    name: Seq<char>,
    counter: u32,
)
    requires
        slots.len() > 0,
        slots[0].owner.bytes@ == program_id.bytes@,
        decode_record(slots[0].data@) is None,
        decode_record(input) == Some((name, counter)),
        slots[0].data@.len() == encode_record(name, 1).len(),
    ensures
        outcome(program_id, slots, input) is Ok,
        decode_record(outcome(program_id, slots, input)->Ok_0) == Some((name, 1u32)),
{
    lemma_encode_decode(input);
    lemma_decode_encode(name, 1);
    let data = slots[0].data@;
    let enc = encode_record(name, 1);
    assert(enc + data.subrange(enc.len() as int, data.len() as int) =~= enc);
}

/// An owned slot that holds a record has its counter incremented and its name
/// kept, whatever the input; the result fills the buffer exactly.
pub proof fn lemma_increment_path(
    program_id: Pubkey,
    slots: Seq<StorageSlot>,
    input: Seq<u8>,
    name: Seq<char>,
    counter: u32,
)
    requires
        slots.len() > 0,
        slots[0].owner.bytes@ == program_id.bytes@,
        decode_record(slots[0].data@) == Some((name, counter)),
        counter < u32::MAX,
    ensures
        outcome(program_id, slots, input) is Ok,
        decode_record(outcome(program_id, slots, input)->Ok_0) == Some((name, (counter + 1) as u32)),
{
    let data = slots[0].data@;
    lemma_encode_decode(data);
    let next = (counter + 1) as u32;
    lemma_decode_encode(name, next);
    let enc = encode_record(name, next);
    assert(enc.len() == encode_record(name, counter).len());
    assert(enc + data.subrange(enc.len() as int, data.len() as int) =~= enc);
}

/// An owned slot that holds no record, with an input that encodes none
/// either, is refused with `InvalidInputEncoding`.
pub proof fn lemma_double_failure(program_id: Pubkey, slots: Seq<StorageSlot>, input: Seq<u8>)
    requires
        slots.len() > 0,
        slots[0].owner.bytes@ == program_id.bytes@,
        decode_record(slots[0].data@) is None,
        decode_record(input) is None,
    ensures
        outcome(program_id, slots, input) == Err::<Seq<u8>, ProcessError>(
            ProcessError::InvalidInputEncoding,
        ),
{
}

} // verus!
