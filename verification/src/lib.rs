//! A prompt and its response, kept in one fixed-size storage slot.
//!
//! A slot holds at most one record. `Submit` writes a fresh record with a prompt;
//! `Respond` closes the record with a response, once. Both act only on a writable
//! slot that the running program owns, and both either write the whole new record or
//! leave every byte of the slot as it was.
//!
//! - [`wire`] states the byte layout and proves that what is written is read back.
//! - [`record`] and [`instruction`] are the codecs for records and payloads.
//! - [`engine`] holds the transitions and the entry point [`process_instruction`].
pub mod engine;
pub mod error;
pub mod identity;
pub mod instruction;
pub mod record;
pub mod slot;
mod text;
pub mod wire;

pub use engine::{
    check_authority, process_instruction, process_submit_prompt, process_submit_response,
    respond, submit,
};
pub use error::{AuthorityError, DecodeError, EncodeError, StateError, TransitionError};
pub use identity::ProgramId;
pub use instruction::PromptInstruction;
pub use record::PromptAccount;
pub use slot::StorageSlot;
