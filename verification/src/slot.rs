//! The storage slot that a record lives in.
use crate::identity::ProgramId;
use vstd::prelude::*;

verus! {

/// A slot as the caller presents it: who owns it, whether it may be written, and its
/// bytes. The number of bytes is the slot's capacity; no transition changes it.
#[derive(Clone, Debug, PartialEq, Eq)]
pub struct StorageSlot {
    pub owner: ProgramId,
    pub is_writable: bool,
    pub data: Vec<u8>,
}

/// A slot, seen as plain mathematical values.
pub struct Slot {
    pub owner: Seq<u8>,
    pub is_writable: bool,
    pub data: Seq<u8>,
}

impl Slot {
    /// This slot with other bytes.
    pub open spec fn holding(self, data: Seq<u8>) -> Slot {
        Slot { owner: self.owner, is_writable: self.is_writable, data }
    }
}

impl View for StorageSlot {
    type V = Slot;

    open spec fn view(&self) -> Slot {
        Slot { owner: self.owner@, is_writable: self.is_writable, data: self.data@ }
    }
}

} // verus!
