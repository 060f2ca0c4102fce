//! What can go wrong while walking the runtime's metadata.

use vstd::prelude::*;
use vstd::string::StringExecFns;

use crate::text::{append_decimal, append_upper_hex, decimal, upper_hex};

verus! {

/// Why a walk through the image stopped without a result.
#[derive(Clone, Copy, Debug, PartialEq, Eq)]
pub enum TraceError {
    /// The image holds no byte at some address of the range that starts at
    /// `addr` and is `len` bytes long. Whoever fills the image can copy that
    /// range from the process and ask again.
    Unreadable { addr: u64, len: u64 },
    /// The first domain of the process is not named `Celeste.exe`.
    NotCeleste,
    /// No class of the class cache has the name `name`.
    ClassNotFound { name: &'static str },
    /// The class at `class` has no field of the name `name`.
    FieldNotFound { class: u64, name: &'static str },
    /// The class at `class` is neither a plain class, a generic definition nor
    /// an instantiation of one, so it has no field table to search.
    UnexpectedClassKind { class: u64 },
    /// No domain has a vtable for the class at `class`.
    ClassNotLoaded { class: u64 },
    /// A chain of links leads back into itself and so never ends: the
    /// metadata is damaged.
    ChainTooLong,
}

impl TraceError {
    /// What is said to the user of this error.
    pub open spec fn message_text(self) -> Seq<char> {
        match self {
            TraceError::Unreadable { addr, len } => "Unable to read "@ + decimal(len as nat)
                + " bytes of memory at 0x"@ + upper_hex(addr as nat),
            TraceError::NotCeleste => "This is not celeste!"@,
            TraceError::ClassNotFound { name } => "Could not find class "@ + name@,
            TraceError::FieldNotFound { class, name } => "Failed to find name "@ + name@
                + " in class 0x"@ + upper_hex(class as nat),
            TraceError::UnexpectedClassKind { class } => "Unexpected kind of class 0x"@ + upper_hex(
                class as nat,
            ),
            TraceError::ClassNotLoaded { class } => "No domain has class 0x"@ + upper_hex(
                class as nat,
            ) + " loaded"@,
            TraceError::ChainTooLong => "The metadata of the game is damaged"@,
        }
    }

    /// What is said to the user of this error.
    pub fn message(&self) -> (text: String)
        ensures
            text@ == self.message_text(),
    {
        match self {
            TraceError::Unreadable { addr, len } => {
                let mut text = "Unable to read ".to_owned();
                append_decimal(&mut text, *len);
                text.append(" bytes of memory at 0x");
                append_upper_hex(&mut text, *addr);
                text
            },
            TraceError::NotCeleste => "This is not celeste!".to_owned(),
            TraceError::ClassNotFound { name } => {
                let mut text = "Could not find class ".to_owned();
                text.append(name);
                text
            },
            TraceError::FieldNotFound { class, name } => {
                let mut text = "Failed to find name ".to_owned();
                text.append(name);
                text.append(" in class 0x");
                append_upper_hex(&mut text, *class);
                text
            },
            TraceError::UnexpectedClassKind { class } => {
                let mut text = "Unexpected kind of class 0x".to_owned();
                append_upper_hex(&mut text, *class);
                text
            },
            TraceError::ClassNotLoaded { class } => {
                let mut text = "No domain has class 0x".to_owned();
                append_upper_hex(&mut text, *class);
                text.append(" loaded");
                text
            },
            TraceError::ChainTooLong => "The metadata of the game is damaged".to_owned(),
        }
    }
}

} // verus!
