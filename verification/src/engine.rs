//! The two transitions, and the entry point that selects one from a payload.
use crate::error::{AuthorityError, DecodeError, StateError, TransitionError};
use crate::identity::ProgramId;
use crate::instruction::PromptInstruction;
use crate::record::{decode_result, encode_effect, encode_result, PromptAccount};
use crate::slot::{Slot, StorageSlot};
use crate::wire::{
    parse_operation, parse_record, record_len, text_fits, theorem_record_canonical,
    theorem_written_record_reads_back, Operation, Record,
};
use vstd::prelude::*;

verus! {

/// The checks that come before either transition: the slot must be writable, and
/// then it must belong to the program that runs the transition.
pub open spec fn authority(program: Seq<u8>, slot: Slot) -> Result<(), AuthorityError> {
    if !slot.is_writable {
        Err(AuthorityError::NotWritable)
    } else if slot.owner != program {
        Err(AuthorityError::WrongOwner)
    } else {
        Ok(())
    }
}

/// Where a slot stands in the life of its record.
pub enum Phase {
    /// The bytes do not read as a record.
    Uninitialized,
    /// The slot holds an open record.
    Submitted,
    /// The slot holds a closed record.
    Finalized,
}

/// The phase that the bytes of a slot stand for.
pub open spec fn phase(data: Seq<u8>) -> Phase {
    match decode_result(data) {
        Err(_) => Phase::Uninitialized,
        Ok(record) => if record.is_processed {
            Phase::Finalized
        } else {
            Phase::Submitted
        },
    }
}

/// What a submission answers.
pub open spec fn submit_result(program: Seq<u8>, slot: Slot, prompt: Seq<char>) -> Result<
    (),
    TransitionError,
> {
    match authority(program, slot) {
        Err(e) => Err(TransitionError::Authority(e)),
        Ok(_) => match encode_result(Record::fresh(prompt), slot.data.len()) {
            Err(e) => Err(TransitionError::Encode(e)),
            Ok(_) => Ok(()),
        },
    }
}

/// The bytes of the slot after a submission.
pub open spec fn submit_effect(program: Seq<u8>, slot: Slot, prompt: Seq<char>) -> Seq<u8> {
    if submit_result(program, slot, prompt) is Ok {
        encode_effect(Record::fresh(prompt), slot.data)
    } else {
        slot.data
    }
}

/// What a response answers.
pub open spec fn respond_result(program: Seq<u8>, slot: Slot, response: Seq<char>) -> Result<
    (),
    TransitionError,
> {
    match authority(program, slot) {
        Err(e) => Err(TransitionError::Authority(e)),
        Ok(_) => match decode_result(slot.data) {
            Err(e) => Err(TransitionError::Stored(e)),
            Ok(record) => if record.is_processed {
                Err(TransitionError::State(StateError::AlreadyFinalized))
            } else {
                match encode_result(record.answered(response), slot.data.len()) {
                    Err(e) => Err(TransitionError::Encode(e)),
                    Ok(_) => Ok(()),
                }
            },
        },
    }
}

/// The bytes of the slot after a response.
pub open spec fn respond_effect(program: Seq<u8>, slot: Slot, response: Seq<char>) -> Seq<u8> {
    if respond_result(program, slot, response) is Ok {
        encode_effect(decode_result(slot.data)->Ok_0.answered(response), slot.data)
    } else {
        slot.data
    }
}

/// The slots of a list, each seen as plain values.
pub open spec fn views(slots: Seq<StorageSlot>) -> Seq<Slot> {
    Seq::new(slots.len(), |i: int| slots[i]@)
}

/// What an operation answers on a list of slots, of which the first is the target.
pub open spec fn apply_result(program: Seq<u8>, slots: Seq<Slot>, op: Operation) -> Result<
    (),
    TransitionError,
> {
    if slots.len() == 0 {
        Err(TransitionError::MissingSlot)
    } else {
        match op {
            Operation::Submit { text } => submit_result(program, slots[0], text),
            Operation::Respond { text } => respond_result(program, slots[0], text),
        }
    }
}

/// The list of slots after an operation: only the bytes of the first can differ.
pub open spec fn apply_effect(program: Seq<u8>, slots: Seq<Slot>, op: Operation) -> Seq<Slot> {
    if slots.len() == 0 {
        slots
    } else {
        slots.update(
            0,
            slots[0].holding(
                match op {
                    Operation::Submit { text } => submit_effect(program, slots[0], text),
                    Operation::Respond { text } => respond_effect(program, slots[0], text),
                },
            ),
        )
    }
}

/// What a payload answers on a list of slots.
pub open spec fn instruction_result(program: Seq<u8>, slots: Seq<Slot>, payload: Seq<u8>) -> Result<
    (),
    TransitionError,
> {
    match parse_operation(payload) {
        None => Err(TransitionError::Payload(DecodeError::Malformed)),
        Some(op) => apply_result(program, slots, op),
    }
}

/// The list of slots after a payload has been processed.
pub open spec fn instruction_effect(program: Seq<u8>, slots: Seq<Slot>, payload: Seq<u8>) -> Seq<
    Slot,
> {
    match parse_operation(payload) {
        None => slots,
        Some(op) => apply_effect(program, slots, op),
    }
}

/// Tells whether `program_id` may write `slot`: `NotWritable` where the slot is not
/// writable, else `WrongOwner` where another program owns it.
pub fn check_authority(program_id: &ProgramId, slot: &StorageSlot) -> (r: Result<
    (),
    AuthorityError,
>)
    ensures
        r == authority(program_id@, slot@),
{
    if !slot.is_writable {
        return Err(AuthorityError::NotWritable);
    }
    if !slot.owner.same_as(program_id) {
        return Err(AuthorityError::WrongOwner);
    }
    Ok(())
}

/// Submit on one slot: after the authority checks, writes the record that holds
/// `prompt`, no response and an open flag over whatever the slot held. On any error
/// the slot is as it was.
pub fn submit(program_id: &ProgramId, slot: &mut StorageSlot, prompt: String) -> (r: Result<
    (),
    TransitionError,
>)
    ensures
        r == submit_result(program_id@, old(slot)@, prompt@),
        final(slot)@ == old(slot)@.holding(submit_effect(program_id@, old(slot)@, prompt@)),
        r is Err ==> final(slot)@ == old(slot)@,
        r is Ok ==> decode_result(final(slot)@.data) == Ok::<Record, DecodeError>(
            Record::fresh(prompt@),
        ),
{
    match check_authority(program_id, slot) {
        Err(e) => {
            return Err(TransitionError::Authority(e));
        },
        Ok(_) => {},
    }
    let record = PromptAccount { prompt, response: None, is_processed: false };
    match record.encode(slot.data.as_mut_slice()) {
        Err(e) => Err(TransitionError::Encode(e)),
        Ok(_) => Ok(()),
    }
}

/// Respond on one slot: after the authority checks, reads the record that the slot
/// holds, refuses one that is closed, and writes it back with `response` and a
/// closed flag. On any error the slot is as it was.
pub fn respond(program_id: &ProgramId, slot: &mut StorageSlot, response: String) -> (r: Result<
    (),
    TransitionError,
>)
    ensures
        r == respond_result(program_id@, old(slot)@, response@),
        final(slot)@ == old(slot)@.holding(respond_effect(program_id@, old(slot)@, response@)),
        r is Err ==> final(slot)@ == old(slot)@,
        r is Ok ==> (decode_result(old(slot)@.data) matches Ok(before) && !before.is_processed
            && decode_result(final(slot)@.data) == Ok::<Record, DecodeError>(
            before.answered(response@),
        )),
{
    match check_authority(program_id, slot) {
        Err(e) => {
            return Err(TransitionError::Authority(e));
        },
        Ok(_) => {},
    }
    let mut record = match PromptAccount::decode(slot.data.as_slice()) {
        Err(e) => {
            return Err(TransitionError::Stored(e));
        },
        Ok(record) => record,
    };
    if record.is_processed {
        return Err(TransitionError::State(StateError::AlreadyFinalized));
    }
    record.response = Some(response);
    record.is_processed = true;
    match record.encode(slot.data.as_mut_slice()) {
        Err(e) => Err(TransitionError::Encode(e)),
        Ok(_) => Ok(()),
    }
}

/// Submit on the first of `accounts`; `MissingSlot` where there is none.
pub fn process_submit_prompt(
    program_id: &ProgramId,
    accounts: &mut [StorageSlot],
    prompt: String,
) -> (r: Result<(), TransitionError>)
    ensures
        r == apply_result(
            program_id@,
            views(old(accounts)@),
            Operation::Submit { text: prompt@ },
        ),
        views(final(accounts)@) == apply_effect(
            program_id@,
            views(old(accounts)@),
            Operation::Submit { text: prompt@ },
        ),
        r is Err ==> views(final(accounts)@) == views(old(accounts)@),
{
    if accounts.len() == 0 {
        return Err(TransitionError::MissingSlot);
    }
    let r = submit(program_id, &mut accounts[0], prompt);
    assert(views(accounts@) =~= apply_effect(
        program_id@,
        views(old(accounts)@),
        Operation::Submit { text: prompt@ },
    ));
    assert(r is Err ==> views(accounts@) =~= views(old(accounts)@));
    r
}

/// Respond on the first of `accounts`; `MissingSlot` where there is none.
pub fn process_submit_response(
    program_id: &ProgramId,
    accounts: &mut [StorageSlot],
    response: String,
) -> (r: Result<(), TransitionError>)
    ensures
        r == apply_result(
            program_id@,
            views(old(accounts)@),
            Operation::Respond { text: response@ },
        ),
        views(final(accounts)@) == apply_effect(
            program_id@,
            views(old(accounts)@),
            Operation::Respond { text: response@ },
        ),
        r is Err ==> views(final(accounts)@) == views(old(accounts)@),
{
    if accounts.len() == 0 {
        return Err(TransitionError::MissingSlot);
    }
    let r = respond(program_id, &mut accounts[0], response);
    assert(views(accounts@) =~= apply_effect(
        program_id@,
        views(old(accounts)@),
        Operation::Respond { text: response@ },
    ));
    assert(r is Err ==> views(accounts@) =~= views(old(accounts)@));
    r
}

/// Reads the operation from `instruction_data` and applies it to the first of
/// `accounts`. A payload that is not an operation is turned down before any slot is
/// looked at.
pub fn process_instruction(
    program_id: &ProgramId,
    accounts: &mut [StorageSlot],
    instruction_data: &[u8],
) -> (r: Result<(), TransitionError>)
    ensures
        r == instruction_result(program_id@, views(old(accounts)@), instruction_data@),
        views(final(accounts)@) == instruction_effect(
            program_id@,
            views(old(accounts)@),
            instruction_data@,
        ),
        r is Err ==> views(final(accounts)@) == views(old(accounts)@),
{
    let instruction = match PromptInstruction::decode(instruction_data) {
        Err(e) => {
            return Err(TransitionError::Payload(e));
        },
        Ok(instruction) => instruction,
    };
    match instruction {
        PromptInstruction::SubmitPrompt { prompt } => process_submit_prompt(
            program_id,
            accounts,
            prompt,
        ),
        PromptInstruction::SubmitResponse { response } => process_submit_response(
            program_id,
            accounts,
            response,
        ),
    }
}

/// A record that a transition writes is closed exactly when it carries a response.
pub proof fn theorem_written_records_are_consistent(
    before: Record,
    prompt: Seq<char>,
    response: Seq<char>,
)
    ensures
        Record::fresh(prompt).consistent(),
        before.answered(response).consistent(),
        before.answered(response).prompt == before.prompt,
{
}

/// Authority comes first: on a slot that is not writable both transitions answer
/// `NotWritable`, on a writable slot of another owner both answer `WrongOwner`, and
/// in either case the slot keeps its bytes, whatever they are and whatever the text.
pub proof fn theorem_authority_enforced(program: Seq<u8>, slot: Slot, text: Seq<char>)
    requires
        !slot.is_writable || slot.owner != program,
    ensures
        submit_result(program, slot, text) == respond_result(program, slot, text),
        submit_result(program, slot, text) == Err::<(), TransitionError>(
            TransitionError::Authority(
                if !slot.is_writable {
                    AuthorityError::NotWritable
                } else {
                    AuthorityError::WrongOwner
                },
            ),
        ),
        submit_effect(program, slot, text) == slot.data,
        respond_effect(program, slot, text) == slot.data,
{
}

/// A submission succeeds on every writable slot of the program that is large enough
/// for the new record, whatever the slot held, and the slot then reads as the fresh
/// record.
pub proof fn theorem_submit_succeeds(program: Seq<u8>, slot: Slot, prompt: Seq<char>)
    requires
        slot.is_writable,
        slot.owner == program,
        text_fits(prompt),
        record_len(Record::fresh(prompt)) <= slot.data.len(),
    ensures
        submit_result(program, slot, prompt) is Ok,
        submit_effect(program, slot, prompt).len() == slot.data.len(),
        decode_result(submit_effect(program, slot, prompt)) == Ok::<Record, DecodeError>(
            Record::fresh(prompt),
        ),
{
    theorem_written_record_reads_back(Record::fresh(prompt), slot.data);
}

/// A response succeeds on every writable slot of the program that holds an open
/// record and is large enough for the closed one, and the slot then reads as the
/// record it held, with the response and closed.
pub proof fn theorem_respond_succeeds(program: Seq<u8>, slot: Slot, response: Seq<char>)
    requires
        slot.is_writable,
        slot.owner == program,
        decode_result(slot.data) matches Ok(held) && !held.is_processed && record_len(
            held.answered(response),
        ) <= slot.data.len(),
        text_fits(response),
    ensures
        respond_result(program, slot, response) is Ok,
        respond_effect(program, slot, response).len() == slot.data.len(),
        decode_result(respond_effect(program, slot, response)) == Ok::<Record, DecodeError>(
            decode_result(slot.data)->Ok_0.answered(response),
        ),
{
    let held = decode_result(slot.data)->Ok_0;
    theorem_record_canonical(slot.data);
    theorem_written_record_reads_back(held.answered(response), slot.data);
}

/// A response after a submission: where the submission succeeded and the slot has
/// room for the closed record, the response succeeds, and the slot reads as the
/// submitted prompt with the response, closed.
pub proof fn theorem_respond_after_submit(
    program: Seq<u8>,
    slot: Slot,
    prompt: Seq<char>,
    response: Seq<char>,
)
    requires
        submit_result(program, slot, prompt) is Ok,
        text_fits(response),
        record_len(Record::fresh(prompt).answered(response)) <= slot.data.len(),
    ensures
        respond_result(
            program,
            slot.holding(submit_effect(program, slot, prompt)),
            response,
        ) is Ok,
        decode_result(
            respond_effect(
                program,
                slot.holding(submit_effect(program, slot, prompt)),
                response,
            ),
        ) == Ok::<Record, DecodeError>(
            Record { prompt, response: Some(response), is_processed: true },
        ),
{
    theorem_submit_succeeds(program, slot, prompt);
    theorem_respond_succeeds(program, slot.holding(submit_effect(program, slot, prompt)), response);
}

/// A closed record stays as it is under responses: on a slot that passes the
/// authority checks and reads as a closed record, every response answers
/// `AlreadyFinalized` and leaves the bytes alone.
pub proof fn theorem_closed_record_refuses_response(
    program: Seq<u8>,
    slot: Slot,
    response: Seq<char>,
)
    requires
        authority(program, slot) is Ok,
        decode_result(slot.data) matches Ok(held) && held.is_processed,
    ensures
        respond_result(program, slot, response) == Err::<(), TransitionError>(
            TransitionError::State(StateError::AlreadyFinalized),
        ),
        respond_effect(program, slot, response) == slot.data,
{
}

/// No second response: after a response has succeeded, every further response to
/// the same slot answers `AlreadyFinalized` and leaves the bytes alone.
pub proof fn theorem_second_response_refused(
    program: Seq<u8>,
    slot: Slot,
    first: Seq<char>,
    second: Seq<char>,
)
    requires
        respond_result(program, slot, first) is Ok,
    ensures
        respond_result(
            program,
            slot.holding(respond_effect(program, slot, first)),
            second,
        ) == Err::<(), TransitionError>(TransitionError::State(StateError::AlreadyFinalized)),
        respond_effect(program, slot.holding(respond_effect(program, slot, first)), second)
            == respond_effect(program, slot, first),
{
    let held = decode_result(slot.data)->Ok_0;
    theorem_written_record_reads_back(held.answered(first), slot.data);
}

/// A response to a slot that holds no record answers `Malformed` and leaves the
/// bytes alone.
pub proof fn theorem_response_needs_a_record(program: Seq<u8>, slot: Slot, response: Seq<char>)
    requires
        authority(program, slot) is Ok,
        parse_record(slot.data) is None,
    ensures
        respond_result(program, slot, response) == Err::<(), TransitionError>(
            TransitionError::Stored(DecodeError::Malformed),
        ),
        respond_effect(program, slot, response) == slot.data,
{
}

/// No transition changes the capacity of a slot, and a transition that fails
/// changes nothing.
pub proof fn theorem_transitions_are_all_or_nothing(
    program: Seq<u8>,
    slot: Slot,
    text: Seq<char>,
)
    ensures
        submit_effect(program, slot, text).len() == slot.data.len(),
        respond_effect(program, slot, text).len() == slot.data.len(),
        submit_result(program, slot, text) is Err ==> submit_effect(program, slot, text)
            == slot.data,
        respond_result(program, slot, text) is Err ==> respond_effect(program, slot, text)
            == slot.data,
{
    if respond_result(program, slot, text) is Ok {
        let held = decode_result(slot.data)->Ok_0;
        theorem_written_record_reads_back(held.answered(text), slot.data);
        theorem_record_canonical(slot.data);
    }
    if submit_result(program, slot, text) is Ok {
        theorem_written_record_reads_back(Record::fresh(text), slot.data);
    }
}

/// The life of a record, on a slot that passes the authority checks. A submission
/// that succeeds leaves the slot `Submitted`, whatever it was. A response is turned
/// down with `Malformed` on an `Uninitialized` slot and with `AlreadyFinalized` on a
/// `Finalized` one; on a `Submitted` slot it can fail only for want of room, and
/// where it succeeds the slot is `Finalized`. So no response ever leaves a slot
/// `Submitted`, and none changes a `Finalized` slot.
pub proof fn theorem_lifecycle(program: Seq<u8>, slot: Slot, text: Seq<char>)
    requires
        authority(program, slot) is Ok,
    ensures
        submit_result(program, slot, text) is Ok ==> phase(submit_effect(program, slot, text))
            == Phase::Submitted,
        phase(slot.data) == Phase::Uninitialized ==> respond_result(program, slot, text) == Err::<
            (),
            TransitionError,
        >(TransitionError::Stored(DecodeError::Malformed)),
        phase(slot.data) == Phase::Finalized ==> respond_result(program, slot, text) == Err::<
            (),
            TransitionError,
        >(TransitionError::State(StateError::AlreadyFinalized)),
        phase(slot.data) == Phase::Submitted ==> (respond_result(program, slot, text) matches Err(
            e,
        ) ==> e is Encode),
        respond_result(program, slot, text) is Ok ==> phase(slot.data) == Phase::Submitted
            && phase(respond_effect(program, slot, text)) == Phase::Finalized,
        respond_result(program, slot, text) is Err ==> phase(respond_effect(program, slot, text))
            == phase(slot.data),
{
    if submit_result(program, slot, text) is Ok {
        theorem_written_record_reads_back(Record::fresh(text), slot.data);
    }
    if respond_result(program, slot, text) is Ok {
        let held = decode_result(slot.data)->Ok_0;
        theorem_written_record_reads_back(held.answered(text), slot.data);
    }
}

/// A payload whose first byte is neither 0 nor 1 answers `Malformed`, and no slot
/// changes.
pub proof fn theorem_unknown_selector_refused(
    program: Seq<u8>,
    slots: Seq<Slot>,
    payload: Seq<u8>,
)
    requires
        payload.len() > 0,
        payload[0] > 1,
    ensures
        instruction_result(program, slots, payload) == Err::<(), TransitionError>(
            TransitionError::Payload(DecodeError::Malformed),
        ),
        instruction_effect(program, slots, payload) == slots,
{
}

} // verus!
