//! The operation selector and its payload codec.
use crate::error::{DecodeError, EncodeError};
use crate::text::{borsh_take_text, borsh_text_to_vec};
use crate::wire::{
    operation_bytes, operation_text, parse_operation, text_fits, Operation,
};
use vstd::prelude::*;

verus! {

/// What a caller asks for: to submit a prompt, or to answer one.
#[derive(Clone, Debug, PartialEq, Eq)]
pub enum PromptInstruction {
    SubmitPrompt { prompt: String },
    SubmitResponse { response: String },
}

impl View for PromptInstruction {
    type V = Operation;

    open spec fn view(&self) -> Operation {
        match self {
            PromptInstruction::SubmitPrompt { prompt } => Operation::Submit { text: prompt@ },
            PromptInstruction::SubmitResponse { response } => Operation::Respond {
                text: response@,
            },
        }
    }
}

impl PromptInstruction {
    /// Reads an operation from a whole payload: a selector byte, 0 to submit and 1 to
    /// respond, then one text field that ends where the payload ends. Anything else
    /// is `Malformed`.
    pub fn decode(payload: &[u8]) -> (r: Result<PromptInstruction, DecodeError>)
        ensures
            match r {
                Ok(instruction) => parse_operation(payload@) == Some(instruction@),
                Err(e) => parse_operation(payload@) is None && e == DecodeError::Malformed,
            },
            payload@.len() > 0 && payload@[0] > 1 ==> r is Err,
    {
        if payload.len() < 1 {
            return Err(DecodeError::Malformed);
        }
        let selector = payload[0];
        if selector > 1 {
            return Err(DecodeError::Malformed);
        }
        let body = &payload[1..payload.len()];
        assert(body@ == payload@.skip(1));
        let (text, rest) = match borsh_take_text(body) {
            Ok(taken) => taken,
            Err(_) => {
                return Err(DecodeError::Malformed);
            },
        };
        if rest.len() != 0 {
            return Err(DecodeError::Malformed);
        }
        if selector == 0 {
            Ok(PromptInstruction::SubmitPrompt { prompt: text })
        } else {
            Ok(PromptInstruction::SubmitResponse { response: text })
        }
    }

    /// The payload of this operation: the selector byte, then the text field. Fails
    /// with `TextTooLong` exactly where the text does not fit its count.
    pub fn to_bytes(&self) -> (r: Result<Vec<u8>, EncodeError>)
        ensures
            match r {
                Ok(bytes) => text_fits(operation_text(self@)) && bytes@ == operation_bytes(
                    self@,
                ),
                Err(e) => !text_fits(operation_text(self@)) && e == EncodeError::TextTooLong,
            },
    {
        let (selector, text): (u8, &String) = match self {
            PromptInstruction::SubmitPrompt { prompt } => (0, prompt),
            PromptInstruction::SubmitResponse { response } => (1, response),
        };
        let mut field = match borsh_text_to_vec(text.as_str()) {
            Ok(bytes) => bytes,
            Err(_) => {
                return Err(EncodeError::TextTooLong);
            },
        };
        let mut payload: Vec<u8> = Vec::new();
        payload.push(selector);
        payload.append(&mut field);
        assert(payload@ =~= operation_bytes(self@));
        Ok(payload)
    }
}

} // verus!
