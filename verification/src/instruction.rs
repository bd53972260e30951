//! The three instructions and their byte form: one tag byte, then the
//! arguments in the layout of the stored records.

use crate::state::{
    counter_exactly, fits, lemma_counter_bytes_of_decoded, lemma_counter_round_trip,
    lemma_note_bytes_of_decoded, lemma_note_round_trip, note_bytes, note_exactly, note_fits,
    GreetingInfo, NotePadAccountInfo, NoteView,
};
use crate::wire::{put_text, put_u32, u32_bytes};
use vstd::prelude::*;
use vstd::slice::slice_subrange;

verus! {

/// An instruction to the note pad.
#[derive(Clone, Debug, PartialEq)]
pub enum NotePadInstruction {
    /// Add `counter` to the counter record in the first account.
    Greeting { counter: u32 },
    /// Create the note `title` of the first account's holder.
    Create { title: String, msg: String, owner: String },
    /// Replace the message and the owner of the note `title`.
    Modify { title: String, msg: String, owner: String },
}

/// What an instruction says.
pub ghost enum InstructionView {
    Greeting { counter: u32 },
    Create { note: NoteView },
    Modify { note: NoteView },
}

impl View for NotePadInstruction {
    type V = InstructionView;

    open spec fn view(&self) -> InstructionView {
        match *self {
            NotePadInstruction::Greeting { counter } => InstructionView::Greeting { counter },
            NotePadInstruction::Create { title, msg, owner } => InstructionView::Create {
                note: NoteView { title: title@, msg: msg@, owner: owner@ },
            },
            NotePadInstruction::Modify { title, msg, owner } => InstructionView::Modify {
                note: NoteView { title: title@, msg: msg@, owner: owner@ },
            },
        }
    }
}

/// Whether an instruction can be written.
pub open spec fn instruction_fits(i: InstructionView) -> bool {
    match i {
        InstructionView::Greeting { counter } => true,
        InstructionView::Create { note } => note_fits(note),
        InstructionView::Modify { note } => note_fits(note),
    }
}

/// The bytes of an instruction: tag 0, 1 or 2, then the arguments.
pub open spec fn instruction_bytes(i: InstructionView) -> Seq<u8> {
    match i {
        InstructionView::Greeting { counter } => seq![0u8] + u32_bytes(counter),
        InstructionView::Create { note } => seq![1u8] + note_bytes(note),
        InstructionView::Modify { note } => seq![2u8] + note_bytes(note),
    }
}

/// The instruction that `bytes` are, to the last byte; `None` for an
/// unknown tag and for arguments that are cut short, malformed or followed
/// by anything.
pub open spec fn instruction_exactly(bytes: Seq<u8>) -> Option<InstructionView> {
    if bytes.len() == 0 {
        None
    } else if bytes[0] == 0 {
        match counter_exactly(bytes.skip(1)) {
            Some(counter) => Some(InstructionView::Greeting { counter }),
            None => None,
        }
    } else if bytes[0] == 1 {
        match note_exactly(bytes.skip(1)) {
            Some(note) => Some(InstructionView::Create { note }),
            None => None,
        }
    } else if bytes[0] == 2 {
        match note_exactly(bytes.skip(1)) {
            Some(note) => Some(InstructionView::Modify { note }),
            None => None,
        }
    } else {
        None
    }
}

impl NotePadInstruction {
    /// Reads the instruction that fills `data`.
    pub fn try_from_slice(data: &[u8]) -> (r: Option<NotePadInstruction>)
        ensures
            match (instruction_exactly(data@), r) {
                (Some(i), Some(got)) => got@ == i,
                (None, None) => true,
                _ => false,
            },
    {
        if data.len() == 0 {
            return None;
        }
        let tag = data[0];
        let body = slice_subrange(data, 1, data.len());
        assert(body@ =~= data@.skip(1));
        if tag == 0 {
            match GreetingInfo::try_from_slice(body) {
                Some(info) => Some(NotePadInstruction::Greeting { counter: info.counter }),
                None => None,
            }
        } else if tag == 1 {
            match NotePadAccountInfo::try_from_slice(body) {
                Some(note) => Some(
                    NotePadInstruction::Create {
                        title: note.title,
                        msg: note.msg,
                        owner: note.owner,
                    },
                ),
                None => None,
            }
        } else if tag == 2 {
            match NotePadAccountInfo::try_from_slice(body) {
                Some(note) => Some(
                    NotePadInstruction::Modify {
                        title: note.title,
                        msg: note.msg,
                        owner: note.owner,
                    },
                ),
                None => None,
            }
        } else {
            None
        }
    }

    /// The bytes of the instruction, or `None` where an argument is too
    /// long for its length prefix.
    pub fn try_to_vec(&self) -> (r: Option<Vec<u8>>)
        ensures
            r is Some <==> instruction_fits(self@),
            r is Some ==> r->0@ == instruction_bytes(self@),
    {
        let mut out: Vec<u8> = Vec::new();
        match self {
            NotePadInstruction::Greeting { counter } => {
                out.push(0u8);
                put_u32(&mut out, *counter);
            },
            NotePadInstruction::Create { title, msg, owner } => {
                if !fits(title.as_str()) || !fits(msg.as_str())
                    || !fits(owner.as_str()) {
                    return None;
                }
                out.push(1u8);
                put_text(&mut out, title.as_str());
                put_text(&mut out, msg.as_str());
                put_text(&mut out, owner.as_str());
            },
            NotePadInstruction::Modify { title, msg, owner } => {
                if !fits(title.as_str()) || !fits(msg.as_str())
                    || !fits(owner.as_str()) {
                    return None;
                }
                out.push(2u8);
                put_text(&mut out, title.as_str());
                put_text(&mut out, msg.as_str());
                put_text(&mut out, owner.as_str());
            },
        }
        assert(out@ =~= instruction_bytes(self@));
        Some(out)
    }
}

/// Round trip: decoding the bytes of an instruction gives that instruction.
pub proof fn lemma_instruction_round_trip(i: InstructionView)
    requires
        instruction_fits(i),
    ensures
        instruction_exactly(instruction_bytes(i)) == Some(i),
{
    let bytes = instruction_bytes(i);
    match i {
        InstructionView::Greeting { counter } => {
            lemma_counter_round_trip(counter);
            assert(bytes.skip(1) =~= u32_bytes(counter));
        },
        InstructionView::Create { note } => {
            lemma_note_round_trip(note);
            assert(bytes.skip(1) =~= note_bytes(note));
        },
        InstructionView::Modify { note } => {
            lemma_note_round_trip(note);
            assert(bytes.skip(1) =~= note_bytes(note));
        },
    }
}

/// The format is exact: bytes that decode to an instruction are that
/// instruction's encoding.
pub proof fn lemma_instruction_bytes_of_decoded(bytes: Seq<u8>, i: InstructionView)
    requires
        instruction_exactly(bytes) == Some(i),
    ensures
        instruction_fits(i),
        instruction_bytes(i) == bytes,
{
    match i {
        InstructionView::Greeting { counter } => {
            lemma_counter_bytes_of_decoded(bytes.skip(1), counter);
        },
        InstructionView::Create { note } => {
            lemma_note_bytes_of_decoded(bytes.skip(1), note);
        },
        InstructionView::Modify { note } => {
            lemma_note_bytes_of_decoded(bytes.skip(1), note);
        },
    }
    assert(bytes =~= seq![bytes[0]] + bytes.skip(1));
}

} // verus!
