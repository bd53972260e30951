//! The two records kept in account slots, and their byte layout.

use crate::wire::{
    get_text, get_u32, put_text, put_u32, text_at, text_bytes, text_fits, text_size, u32_bytes,
    u32_value, write_front,
};
use crate::wire::{
    lemma_text_at_text_bytes, lemma_text_bytes_text_at, lemma_u32_bytes_of_value,
    lemma_u32_value_of_bytes,
};
use vstd::prelude::*;

verus! {

/// The counter record: one number, stored as four little-endian bytes.
#[derive(Clone, Debug, PartialEq, Eq)]
pub struct GreetingInfo {
    pub counter: u32,
}

/// A note: its title, its message, and the text form of its owner's address.
#[derive(Clone, Debug, PartialEq, Eq)]
pub struct NotePadAccountInfo {
    pub title: String,
    pub msg: String,
    pub owner: String,
}

/// What a note says, as three sequences of characters.
pub ghost struct NoteView {
    pub title: Seq<char>,
    pub msg: Seq<char>,
    pub owner: Seq<char>,
}

impl View for NotePadAccountInfo {
    type V = NoteView;

    open spec fn view(&self) -> NoteView {
        NoteView { title: self.title@, msg: self.msg@, owner: self.owner@ }
    }
}

/// Whether every field of a note can be written.
pub open spec fn note_fits(note: NoteView) -> bool {
    text_fits(note.title) && text_fits(note.msg) && text_fits(note.owner)
}

/// The stored form of a note: its three fields in order, with nothing
/// before, between or behind them.
pub open spec fn note_bytes(note: NoteView) -> Seq<u8> {
    text_bytes(note.title) + text_bytes(note.msg) + text_bytes(note.owner)
}

/// The number of bytes a note takes in store.
pub open spec fn note_size(note: NoteView) -> nat {
    text_size(note.title) + text_size(note.msg) + text_size(note.owner)
}

/// The note that `bytes` starts with and the number of bytes it takes;
/// whatever follows is not looked at.
pub open spec fn note_at(bytes: Seq<u8>) -> Option<(NoteView, int)> {
    match text_at(bytes) {
        None => None,
        Some((title, a)) => match text_at(bytes.skip(a)) {
            None => None,
            Some((msg, b)) => match text_at(bytes.skip(a + b)) {
                None => None,
                Some((owner, c)) => Some((NoteView { title, msg, owner }, a + b + c)),
            },
        },
    }
}

/// The note that `bytes` are, to the last byte.
pub open spec fn note_exactly(bytes: Seq<u8>) -> Option<NoteView> {
    match note_at(bytes) {
        Some((note, used)) => if used == bytes.len() {
            Some(note)
        } else {
            None
        },
        None => None,
    }
}

/// The counter that `bytes` are: exactly four bytes.
pub open spec fn counter_exactly(bytes: Seq<u8>) -> Option<u32> {
    if bytes.len() == 4 {
        Some(u32_value(bytes) as u32)
    } else {
        None
    }
}

impl GreetingInfo {
    /// The stored form of the record.
    pub fn try_to_vec(&self) -> (bytes: Vec<u8>)
        ensures
            bytes@ == u32_bytes(self.counter),
    {
        let mut out: Vec<u8> = Vec::new();
        put_u32(&mut out, self.counter);
        assert(out@ =~= u32_bytes(self.counter));
        out
    }

    /// Reads a record that fills `data`; four bytes, no fewer and no more.
    pub fn try_from_slice(data: &[u8]) -> (r: Option<GreetingInfo>)
        ensures
            match counter_exactly(data@) {
                Some(counter) => r is Some && r->0.counter == counter,
                None => r is None,
            },
    {
        if data.len() != 4 {
            return None;
        }
        match get_u32(data, 0) {
            Some(counter) => {
                assert(data@.skip(0) =~= data@);
                Some(GreetingInfo { counter })
            },
            None => None,
        }
    }

    /// Writes the record over the front of a slot, if the slot holds four
    /// bytes or more; a smaller slot is left as it was.
    pub fn serialize(&self, slot: &mut Vec<u8>) -> (done: bool)
        ensures
            done == (old(slot)@.len() >= 4),
            done ==> final(slot)@ == u32_bytes(self.counter) + old(slot)@.skip(4),
            !done ==> final(slot)@ == old(slot)@,
    {
        let bytes = self.try_to_vec();
        proof {
            lemma_u32_value_of_bytes(self.counter);
        }
        write_front(slot, bytes.as_slice())
    }
}

/// Whether a text can be written: `text_fits`, computed.
pub fn fits(text: &str) -> (b: bool)
    ensures
        b == text_fits(text@),
{
    text.as_bytes().len() <= u32::MAX as usize
}

impl NotePadAccountInfo {
    /// The number of bytes the note takes in store, where a `usize` holds it.
    pub fn packed_len(&self) -> (r: Option<usize>)
        ensures
            r is Some <==> note_size(self@) <= usize::MAX,
            r is Some ==> r->0 == note_size(self@),
    {
        let a = self.title.as_str().as_bytes().len();
        let b = self.msg.as_str().as_bytes().len();
        let c = self.owner.as_str().as_bytes().len();
        let ab = a.checked_add(b)?;
        let abc = ab.checked_add(c)?;
        abc.checked_add(12)
    }

    /// The stored form of the note, or `None` where a field is too long for
    /// its length prefix.
    pub fn try_to_vec(&self) -> (r: Option<Vec<u8>>)
        ensures
            r is Some <==> note_fits(self@),
            r is Some ==> r->0@ == note_bytes(self@),
    {
        if !fits(self.title.as_str()) || !fits(self.msg.as_str()) || !fits(self.owner.as_str()) {
            return None;
        }
        let mut out: Vec<u8> = Vec::new();
        put_text(&mut out, self.title.as_str());
        put_text(&mut out, self.msg.as_str());
        put_text(&mut out, self.owner.as_str());
        assert(out@ =~= note_bytes(self@));
        Some(out)
    }

    /// Reads the note at the front of `data` and returns it with its size.
    /// Bytes behind the note are not looked at.
    pub fn deserialize(data: &[u8]) -> (r: Option<(NotePadAccountInfo, usize)>)
        ensures
            match (note_at(data@), r) {
                (Some((note, used)), Some((got, end))) => got@ == note && end == used,
                (None, None) => true,
                _ => false,
            },
    {
        assert(data@.skip(0) =~= data@);
        let (title, a) = get_text(data, 0)?;
        let (msg, b) = get_text(data, a)?;
        let (owner, c) = get_text(data, b)?;
        Some((NotePadAccountInfo { title, msg, owner }, c))
    }

    /// Reads the note at the front of `data`, whatever follows it.
    pub fn try_from_slice_unchecked(data: &[u8]) -> (r: Option<NotePadAccountInfo>)
        ensures
            match (note_at(data@), r) {
                (Some((note, _)), Some(got)) => got@ == note,
                (None, None) => true,
                _ => false,
            },
    {
        match Self::deserialize(data) {
            Some((note, _)) => Some(note),
            None => None,
        }
    }

    /// Reads a note that fills `data` to the last byte.
    pub fn try_from_slice(data: &[u8]) -> (r: Option<NotePadAccountInfo>)
        ensures
            match (note_exactly(data@), r) {
                (Some(note), Some(got)) => got@ == note,
                (None, None) => true,
                _ => false,
            },
    {
        match Self::deserialize(data) {
            Some((note, end)) => if end == data.len() {
                Some(note)
            } else {
                None
            },
            None => None,
        }
    }

    /// Writes the note over the front of a slot. Bytes of the slot behind
    /// the note stay; a note that cannot be written, or a slot too small for
    /// it, leaves the slot as it was.
    pub fn serialize(&self, slot: &mut Vec<u8>) -> (done: bool)
        ensures
            done == (note_fits(self@) && note_size(self@) <= old(slot)@.len()),
            done ==> final(slot)@ == note_bytes(self@) + old(slot)@.skip(note_size(self@) as int),
            !done ==> final(slot)@ == old(slot)@,
    {
        match self.try_to_vec() {
            Some(bytes) => {
                proof {
                    lemma_note_bytes_len(self@);
                }
                write_front(slot, bytes.as_slice())
            },
            None => false,
        }
    }
}

/// A note's stored form has the size that `note_size` gives.
pub proof fn lemma_note_bytes_len(note: NoteView)
    requires
        note_fits(note),
    ensures
        note_bytes(note).len() == note_size(note),
{
    lemma_text_at_text_bytes(note.title, Seq::empty());
    lemma_text_at_text_bytes(note.msg, Seq::empty());
    lemma_text_at_text_bytes(note.owner, Seq::empty());
}

/// How three joined pieces and a tail come apart again.
proof fn lemma_three_pieces(p: Seq<u8>, q: Seq<u8>, r: Seq<u8>, tail: Seq<u8>)
    ensures
        p + q + r + tail == p + (q + (r + tail)),
        q + (r + tail) == (p + q + r + tail).skip(p.len() as int),
        r + tail == (p + q + r + tail).skip((p.len() + q.len()) as int),
{
    assert(p + q + r + tail =~= p + (q + (r + tail)));
    assert(q + (r + tail) =~= (p + q + r + tail).skip(p.len() as int));
    assert(r + tail =~= (p + q + r + tail).skip((p.len() + q.len()) as int));
}

/// A stored note is read back as it was written, whatever follows it in
/// the slot.
pub proof fn lemma_note_at_note_bytes(note: NoteView, rest: Seq<u8>)
    requires
        note_fits(note),
    ensures
        note_at(note_bytes(note) + rest) == Some((note, note_size(note) as int)),
{
    let p = text_bytes(note.title);
    let q = text_bytes(note.msg);
    let r = text_bytes(note.owner);
    lemma_three_pieces(p, q, r, rest);
    lemma_text_at_text_bytes(note.title, q + (r + rest));
    lemma_text_at_text_bytes(note.msg, r + rest);
    lemma_text_at_text_bytes(note.owner, rest);
}

/// Round trip: decoding the encoding of a note gives that note.
pub proof fn lemma_note_round_trip(note: NoteView)
    requires
        note_fits(note),
    ensures
        note_exactly(note_bytes(note)) == Some(note),
{
    lemma_note_at_note_bytes(note, Seq::empty());
    lemma_note_bytes_len(note);
    assert(note_bytes(note) + Seq::<u8>::empty() =~= note_bytes(note));
}

/// The format is exact: bytes that decode to a note are that note's
/// encoding, so no two byte strings decode to the same note.
pub proof fn lemma_note_bytes_of_decoded(bytes: Seq<u8>, note: NoteView)
    requires
        note_exactly(bytes) == Some(note),
    ensures
        note_fits(note),
        note_bytes(note) == bytes,
{
    let (title, a) = text_at(bytes)->0;
    let (msg, b) = text_at(bytes.skip(a))->0;
    let (owner, c) = text_at(bytes.skip(a + b))->0;
    lemma_text_bytes_text_at(bytes, title, a);
    lemma_text_bytes_text_at(bytes.skip(a), msg, b);
    lemma_text_bytes_text_at(bytes.skip(a + b), owner, c);
    assert(bytes =~= bytes.subrange(0, a) + bytes.skip(a).subrange(0, b) + bytes.skip(
        a + b,
    ).subrange(0, c));
}

/// Round trip for the counter record.
pub proof fn lemma_counter_round_trip(counter: u32)
    ensures
        counter_exactly(u32_bytes(counter)) == Some(counter),
{
    lemma_u32_value_of_bytes(counter);
}

/// Four bytes that decode to a counter are that counter's encoding.
pub proof fn lemma_counter_bytes_of_decoded(bytes: Seq<u8>, counter: u32)
    requires
        counter_exactly(bytes) == Some(counter),
    ensures
        u32_bytes(counter) == bytes,
{
    lemma_u32_bytes_of_value(bytes);
}

} // verus!
