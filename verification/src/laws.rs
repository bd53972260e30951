//! What holds of the handlers together: who can change a note, who
//! cannot, and what a created note reads back as.

use crate::address::parsed_identity;
use crate::error::{NotePadError, ProcessError};
use crate::processor::{
    allocated, create_refusal, create_request, created, expected_address, finish_outcome,
    modify_outcome, settles, AccountView, Allocation,
};
use crate::state::{
    lemma_note_at_note_bytes, lemma_note_bytes_len, lemma_note_round_trip, note_at, note_bytes,
    note_exactly, note_fits, note_size, NoteView,
};
use vstd::prelude::*;
use vstd::utf8::encode_utf8;

verus! {

/// A note of more than 1000 bytes is never created: `process_create`
/// refuses it with `OutOfLimitedLength`, whatever the accounts are, and
/// returns no request to allocate.
pub proof fn lemma_oversized_note_is_refused(
    program: Seq<u8>,
    accounts: Seq<AccountView>,
    note: NoteView,
    r: Result<Allocation, ProcessError>,
)
    requires
        created(program, accounts, note, r),
        encode_utf8(note.title).len() + encode_utf8(note.msg).len() + encode_utf8(
            note.owner,
        ).len() + 12 > 1000,
    ensures
        r == Err::<Allocation, ProcessError>(
            ProcessError::Custom(NotePadError::OutOfLimitedLength),
        ),
{
}

/// A created note reads back as it was given: once the slot that
/// `process_create` asked for is there, `finish_create` succeeds, and the
/// slot holds the note's encoding and nothing else.
pub proof fn lemma_created_note_reads_back(
    program: Seq<u8>,
    accounts: Seq<AccountView>,
    note: NoteView,
    with_slot: Seq<AccountView>,
    r: Result<(), ProcessError>,
    after: Seq<AccountView>,
)
    requires
        create_refusal(program, accounts, note) is None,
        allocated(create_request(program, accounts, note), accounts, with_slot),
        settles(with_slot, 1, finish_outcome(with_slot, note), r, after),
    ensures
        r is Ok,
        after[1].key == with_slot[1].key,
        after[1].data == note_bytes(note),
        note_exactly(after[1].data) == Some(note),
{
    lemma_small_note_fits(note);
    lemma_note_bytes_len(note);
    lemma_note_round_trip(note);
    assert(note_bytes(note) + with_slot[1].data.skip(note_size(note) as int) =~= note_bytes(note));
}

/// The creator can change the note: after a creation, `process_modify`
/// with the same title, asked for by the creator, succeeds, and the slot
/// then reads as the note with the new message and the new owner. This
/// holds where the changed note is no larger than the slot, which was made
/// for the note as it was created.
pub proof fn lemma_creator_can_modify(
    program: Seq<u8>,
    accounts: Seq<AccountView>,
    note: NoteView,
    with_slot: Seq<AccountView>,
    stored: Result<(), ProcessError>,
    with_note: Seq<AccountView>,
    msg: Seq<char>,
    owner: Seq<char>,
    r: Result<(), ProcessError>,
    after: Seq<AccountView>,
)
    requires
        create_refusal(program, accounts, note) is None,
        allocated(create_request(program, accounts, note), accounts, with_slot),
        settles(with_slot, 1, finish_outcome(with_slot, note), stored, with_note),
        settles(with_note, 1, modify_outcome(program, with_note, note.title, msg, owner), r, after),
        note_size(NoteView { title: note.title, msg, owner }) <= note_size(note),
    ensures
        stored is Ok,
        r is Ok,
        note_at(after[1].data) matches Some((changed, _)) && changed == (NoteView {
            title: note.title,
            msg,
            owner,
        }),
{
    let changed = NoteView { title: note.title, msg, owner };
    lemma_created_note_reads_back(program, accounts, note, with_slot, stored, with_note);
    lemma_note_at_note_bytes(note, Seq::empty());
    assert(note_bytes(note) + Seq::<u8>::empty() =~= note_bytes(note));
    lemma_note_bytes_len(note);
    lemma_small_note_fits(changed);
    lemma_note_at_note_bytes(changed, with_note[1].data.skip(note_size(changed) as int));
}

/// The owner can change the note: `process_modify` asked for by the
/// address that the stored note names as its owner succeeds where the
/// changed note goes into the slot, and the slot then reads as the note
/// with the new message and the new owner.
pub proof fn lemma_owner_can_modify(
    program: Seq<u8>,
    accounts: Seq<AccountView>,
    title: Seq<char>,
    msg: Seq<char>,
    owner: Seq<char>,
    r: Result<(), ProcessError>,
    after: Seq<AccountView>,
)
    requires
        accounts.len() >= 2,
        note_at(accounts[1].data) matches Some((stored, _)) && {
            &&& parsed_identity(stored.owner) == Some(accounts[0].key)
            &&& note_fits(NoteView { title: stored.title, msg, owner })
            &&& note_size(NoteView { title: stored.title, msg, owner }) <= accounts[1].data.len()
        },
        settles(accounts, 1, modify_outcome(program, accounts, title, msg, owner), r, after),
    ensures
        r is Ok,
        note_at(accounts[1].data) matches Some((stored, _)) && note_at(after[1].data) matches Some(
            (changed, _),
        ) && changed == (NoteView { title: stored.title, msg, owner }),
{
    let (stored, _) = note_at(accounts[1].data)->0;
    let changed = NoteView { title: stored.title, msg, owner };
    lemma_note_at_note_bytes(changed, accounts[1].data.skip(note_size(changed) as int));
}

/// Nobody else can change the note: `process_modify` asked for by an
/// address that is neither the creator, for whom the slot's address is the
/// derived one, nor the owner that the stored note names, is refused with
/// `NotOwnedByHelloWrold`, and every account is left as it was.
pub proof fn lemma_stranger_cannot_modify(
    program: Seq<u8>,
    accounts: Seq<AccountView>,
    title: Seq<char>,
    msg: Seq<char>,
    owner: Seq<char>,
    r: Result<(), ProcessError>,
    after: Seq<AccountView>,
)
    requires
        accounts.len() >= 2,
        note_at(accounts[1].data) matches Some((stored, _)) && parsed_identity(stored.owner)
            != Some(accounts[0].key),
        expected_address(accounts[0].key, title, program) != Some(accounts[1].key),
        settles(accounts, 1, modify_outcome(program, accounts, title, msg, owner), r, after),
    ensures
        r == Err::<(), ProcessError>(ProcessError::Custom(NotePadError::NotOwnedByHelloWrold)),
        after == accounts,
{
}

/// Changing a note twice in the same way is changing it once: where
/// `process_modify` has succeeded, the same request again, granted or
/// refused, leaves every account as the first one left it.
pub proof fn lemma_modify_again_changes_nothing(
    program: Seq<u8>,
    accounts: Seq<AccountView>,
    title: Seq<char>,
    msg: Seq<char>,
    owner: Seq<char>,
    first: Result<(), ProcessError>,
    between: Seq<AccountView>,
    second: Result<(), ProcessError>,
    after: Seq<AccountView>,
)
    requires
        settles(accounts, 1, modify_outcome(program, accounts, title, msg, owner), first, between),
        first is Ok,
        settles(between, 1, modify_outcome(program, between, title, msg, owner), second, after),
    ensures
        after == between,
{
    let (stored, _) = note_at(accounts[1].data)->0;
    let changed = NoteView { title: stored.title, msg, owner };
    let tail = accounts[1].data.skip(note_size(changed) as int);
    lemma_note_at_note_bytes(changed, tail);
    lemma_note_bytes_len(changed);
    if second is Ok {
        assert(between[1].data.skip(note_size(changed) as int) =~= tail);
        assert(after =~= between);
    }
}

/// A note of at most 1000 bytes can be written: each field fits its length
/// prefix.
pub proof fn lemma_small_note_fits(note: NoteView)
    requires
        note_size(note) <= 1000,
    ensures
        note_fits(note),
{
}

} // verus!
