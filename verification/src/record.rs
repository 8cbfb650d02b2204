//! The record and its codec.
use crate::error::{DecodeError, EncodeError};
use crate::text::{borsh_take_text, borsh_text_to_vec};
use crate::wire::{
    overwritten, parse_record, record_bytes, record_fits, record_len,
    theorem_record_round_trip, Record,
};
use vstd::prelude::*;

verus! {

/// What one slot holds: a prompt, the response once it has been given, and whether
/// the record is closed.
#[derive(Clone, Debug, PartialEq, Eq)]
pub struct PromptAccount {
    pub prompt: String,
    pub response: Option<String>,
    pub is_processed: bool,
}

/// What `encode` answers for a record, given the destination's capacity.
pub open spec fn encode_result(record: Record, capacity: nat) -> Result<(), EncodeError> {
    if record_len(record) > capacity {
        Err(EncodeError::CapacityExceeded)
    } else if !record_fits(record) {
        Err(EncodeError::TextTooLong)
    } else {
        Ok(())
    }
}

/// What `encode` leaves in the destination.
pub open spec fn encode_effect(record: Record, buffer: Seq<u8>) -> Seq<u8> {
    if encode_result(record, buffer.len()) is Ok {
        overwritten(buffer, record_bytes(record))
    } else {
        buffer
    }
}

/// What `decode` answers for a buffer.
pub open spec fn decode_result(bytes: Seq<u8>) -> Result<Record, DecodeError> {
    match parse_record(bytes) {
        Some((record, _)) => Ok(record),
        None => Err(DecodeError::Malformed),
    }
}

impl View for PromptAccount {
    type V = Record;

    open spec fn view(&self) -> Record {
        Record {
            prompt: self.prompt@,
            response: match self.response {
                Some(text) => Some(text@),
                None => None,
            },
            is_processed: self.is_processed,
        }
    }
}

impl PromptAccount {
    /// The encoded size, or `None` where it is more than a `usize` can hold.
    pub fn encoded_len(&self) -> (len: Option<usize>)
        ensures
            match len {
                Some(n) => n == record_len(self@),
                None => record_len(self@) > usize::MAX,
            },
    {
        let prompt_len = self.prompt.as_str().as_bytes().len();
        let response_len: usize = match &self.response {
            Some(text) => match text.as_str().as_bytes().len().checked_add(5) {
                Some(n) => n,
                None => {
                    return None;
                },
            },
            None => 1,
        };
        match prompt_len.checked_add(5) {
            Some(n) => n.checked_add(response_len),
            None => None,
        }
    }

    /// The encoding of this record: the prompt as a text field, the presence byte and
    /// the response, the flag. Fails with `TextTooLong` exactly where a text does not
    /// fit its count.
    pub fn to_bytes(&self) -> (r: Result<Vec<u8>, EncodeError>)
        ensures
            match r {
                Ok(bytes) => record_fits(self@) && bytes@ == record_bytes(self@),
                Err(e) => !record_fits(self@) && e == EncodeError::TextTooLong,
            },
    {
        let mut image = match borsh_text_to_vec(self.prompt.as_str()) {
            Ok(bytes) => bytes,
            Err(_) => {
                return Err(EncodeError::TextTooLong);
            },
        };
        match &self.response {
            Some(text) => {
                let mut field = match borsh_text_to_vec(text.as_str()) {
                    Ok(bytes) => bytes,
                    Err(_) => {
                        return Err(EncodeError::TextTooLong);
                    },
                };
                image.push(1);
                image.append(&mut field);
            },
            None => {
                image.push(0);
            },
        }
        image.push(if self.is_processed {
            1
        } else {
            0
        });
        assert(image@ =~= record_bytes(self@));
        Ok(image)
    }

    /// Writes the encoding of this record over the front of `destination`, whose
    /// length never changes. Where the encoding is longer than the destination the
    /// answer is `CapacityExceeded`; where it would fit but a text is too long for
    /// its count, `TextTooLong`. On either error no byte of the destination is
    /// touched. The bytes after the encoding are left as they were.
    pub fn encode(&self, destination: &mut [u8]) -> (r: Result<(), EncodeError>)
        ensures
            r == encode_result(self@, old(destination)@.len()),
            final(destination)@ == encode_effect(self@, old(destination)@),
            final(destination)@.len() == old(destination)@.len(),
            record_len(self@) > old(destination)@.len() ==> r == Err::<(), EncodeError>(
                EncodeError::CapacityExceeded,
            ) && final(destination)@ == old(destination)@,
            r is Err ==> final(destination)@ == old(destination)@,
            r is Ok ==> decode_result(final(destination)@) == Ok::<Record, DecodeError>(self@),
    {
        let capacity = destination.len();
        match self.encoded_len() {
            Some(n) => {
                if n > capacity {
                    return Err(EncodeError::CapacityExceeded);
                }
            },
            None => {
                return Err(EncodeError::CapacityExceeded);
            },
        }
        let image = match self.to_bytes() {
            Ok(bytes) => bytes,
            Err(e) => {
                return Err(e);
            },
        };
        proof {
            theorem_record_round_trip(self@, old(destination)@.skip(image@.len() as int));
        }
        let mut i: usize = 0;
        while i < image.len()
            invariant
                i <= image.len() <= destination@.len(),
                destination@.len() == old(destination)@.len(),
                destination@ == overwritten(old(destination)@, image@.take(i as int)),
            decreases image.len() - i,
        {
            destination[i] = image[i];
            i += 1;
            assert(destination@ =~= overwritten(old(destination)@, image@.take(i as int)));
        }
        assert(image@.take(i as int) =~= image@);
        Ok(())
    }

    /// Reads a record from the front of `bytes`. Bytes after the record are not
    /// looked at. The answer is `Malformed` where the bytes end before the record
    /// does, where a count states more bytes than follow it, where the presence byte
    /// or the flag is neither 0 nor 1, and where a text is not UTF-8.
    pub fn decode(bytes: &[u8]) -> (r: Result<PromptAccount, DecodeError>)
        ensures
            match r {
                Ok(account) => decode_result(bytes@) == Ok::<Record, DecodeError>(account@),
                Err(e) => decode_result(bytes@) == Err::<Record, DecodeError>(e),
            },
    {
        let (prompt, rest) = match borsh_take_text(bytes) {
            Ok(taken) => taken,
            Err(_) => {
                return Err(DecodeError::Malformed);
            },
        };
        if rest.len() < 1 {
            return Err(DecodeError::Malformed);
        }
        let presence = rest[0];
        let after_presence = &rest[1..rest.len()];
        assert(after_presence@ == rest@.skip(1));
        let (response, rest) = if presence == 0 {
            (None, after_presence)
        } else if presence == 1 {
            match borsh_take_text(after_presence) {
                Ok((text, rest)) => (Some(text), rest),
                Err(_) => {
                    return Err(DecodeError::Malformed);
                },
            }
        } else {
            return Err(DecodeError::Malformed);
        };
        if rest.len() < 1 {
            return Err(DecodeError::Malformed);
        }
        let is_processed = if rest[0] == 0 {
            false
        } else if rest[0] == 1 {
            true
        } else {
            return Err(DecodeError::Malformed);
        };
        Ok(PromptAccount { prompt, response, is_processed })
    }
}

} // verus!
