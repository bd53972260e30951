//! The handlers of the three instructions, and the dispatcher in front of
//! them.

use crate::address::{
    derive_address, derived_address, parse_identity, parsed_identity, Identity,
};
use crate::error::{NotePadError, ProcessError};
use crate::instruction::{instruction_exactly, InstructionView, NotePadInstruction};
use crate::state::{
    counter_exactly, note_at, note_bytes, note_fits, note_size, GreetingInfo, NotePadAccountInfo,
    NoteView,
};
use crate::wire::u32_bytes;
use vstd::prelude::*;
use vstd::utf8::encode_utf8;

verus! {

/// The largest size, in bytes, that a note may have when it is created.
pub const MAX_NOTE_SIZE: usize = 1000;

/// An account as an instruction sees it: its address, the program that
/// owns it, and the bytes of its slot. The slot's size is fixed: handlers
/// overwrite bytes and never add or drop one.
#[derive(Clone, Debug, PartialEq, Eq)]
pub struct Account {
    pub key: Identity,
    pub owner: Identity,
    pub data: Vec<u8>,
}

/// What an account holds.
pub ghost struct AccountView {
    pub key: Seq<u8>,
    pub owner: Seq<u8>,
    pub data: Seq<u8>,
}

impl View for Account {
    type V = AccountView;

    open spec fn view(&self) -> AccountView {
        AccountView { key: self.key@, owner: self.owner@, data: self.data@ }
    }
}

/// What a list of accounts holds.
pub open spec fn views(accounts: Seq<Account>) -> Seq<AccountView> {
    Seq::new(accounts.len(), |i: int| accounts[i]@)
}

/// `accounts` with the slot of the account at `at` replaced by `data`.
pub open spec fn with_data(accounts: Seq<AccountView>, at: int, data: Seq<u8>) -> Seq<AccountView> {
    accounts.update(at, AccountView { data, ..accounts[at] })
}

/// How a handler that writes one slot leaves the accounts: with the new
/// bytes in the slot of the account at `at` where it succeeds, and as they
/// were where it refuses.
pub open spec fn settles(
    before: Seq<AccountView>,
    at: int,
    outcome: Result<Seq<u8>, ProcessError>,
    r: Result<(), ProcessError>,
    after: Seq<AccountView>,
) -> bool {
    match outcome {
        Ok(data) => r is Ok && after == with_data(before, at, data),
        Err(e) => r == Err::<(), ProcessError>(e) && after == before,
    }
}

/// What the allocation service is asked for when a note is created: a
/// slot of `space` bytes at `target`, paid for by `payer` and owned by
/// `program`. `address` is the address derived from the payer and the
/// note's title; the seeds `[payer, title, [bump]]` prove the derivation to
/// the service, which refuses a `target` that is another address. `note`
/// is what `finish_create` writes once the slot is there.
#[derive(Clone, Debug, PartialEq, Eq)]
pub struct Allocation {
    pub payer: Identity,
    pub target: Identity,
    pub space: usize,
    pub program: Identity,
    pub address: Identity,
    pub bump: u8,
    pub note: NotePadAccountInfo,
}

/// What an allocation request says.
pub ghost struct AllocationView {
    pub payer: Seq<u8>,
    pub target: Seq<u8>,
    pub space: nat,
    pub program: Seq<u8>,
    pub address: Seq<u8>,
    pub bump: u8,
    pub note: NoteView,
}

impl View for Allocation {
    type V = AllocationView;

    open spec fn view(&self) -> AllocationView {
        AllocationView {
            payer: self.payer@,
            target: self.target@,
            space: self.space as nat,
            program: self.program@,
            address: self.address@,
            bump: self.bump,
            note: self.note@,
        }
    }
}

/// What is left to the host when an instruction has been handled.
#[derive(Clone, Debug, PartialEq, Eq)]
pub enum Step {
    /// Nothing: the accounts hold the result.
    Done,
    /// Have the slot allocated, then call `finish_create` with the note.
    Allocate(Allocation),
}

/// The handlers.
pub struct Processor {}

/// The bytes of an address that may be missing.
pub open spec fn key_of(id: Option<Identity>) -> Option<Seq<u8>> {
    match id {
        Some(id) => Some(id@),
        None => None,
    }
}

/// The address at which the note `title` of `creator` is kept, if one can
/// be derived.
pub open spec fn expected_address(creator: Seq<u8>, title: Seq<char>, program: Seq<u8>) -> Option<
    Seq<u8>,
> {
    match derived_address(creator, encode_utf8(title), program) {
        Some((address, _)) => Some(address),
        None => None,
    }
}

/// Who may change a note: the creator, for whom the slot's address is the
/// one derived from the requester and the title, and the holder, whose
/// address the note names as its owner.
pub open spec fn authorized(
    requester: Seq<u8>,
    slot_key: Seq<u8>,
    expected: Option<Seq<u8>>,
    holder: Option<Seq<u8>>,
) -> bool {
    expected == Some(slot_key) || holder == Some(requester)
}

/// The slot after the stored note got a new message and a new owner. The
/// title stays, and so do the bytes behind the new note. A note that does
/// not go into the slot is refused.
pub open spec fn modified_slot(slot: Seq<u8>, stored: NoteView, msg: Seq<char>, owner: Seq<char>) -> Result<
    Seq<u8>,
    ProcessError,
> {
    let note = NoteView { title: stored.title, msg, owner };
    if note_fits(note) && note_size(note) <= slot.len() {
        Ok(note_bytes(note) + slot.skip(note_size(note) as int))
    } else {
        Err(ProcessError::Custom(NotePadError::OutOfLimitedLength))
    }
}

/// What a change does to a slot, given the derived address and the
/// holder's address: the new bytes of the slot, or the refusal.
pub open spec fn modify_with_outcome(
    requester: Seq<u8>,
    slot_key: Seq<u8>,
    slot: Seq<u8>,
    expected: Option<Seq<u8>>,
    holder: Option<Seq<u8>>,
    stored: NoteView,
    msg: Seq<char>,
    owner: Seq<char>,
) -> Result<Seq<u8>, ProcessError> {
    if authorized(requester, slot_key, expected, holder) {
        modified_slot(slot, stored, msg, owner)
    } else {
        Err(ProcessError::Custom(NotePadError::NotOwnedByHelloWrold))
    }
}

/// What `Modify` does to the accounts it is given: the new bytes of the
/// second account's slot, or the refusal.
pub open spec fn modify_outcome(
    program: Seq<u8>,
    accounts: Seq<AccountView>,
    title: Seq<char>,
    msg: Seq<char>,
    owner: Seq<char>,
) -> Result<Seq<u8>, ProcessError> {
    if accounts.len() < 2 {
        Err(ProcessError::NotEnoughAccountKeys)
    } else {
        match note_at(accounts[1].data) {
            None => Err(ProcessError::BorshIoError),
            Some((stored, _)) => modify_with_outcome(
                accounts[0].key,
                accounts[1].key,
                accounts[1].data,
                expected_address(accounts[0].key, title, program),
                parsed_identity(stored.owner),
                stored,
                msg,
                owner,
            ),
        }
    }
}

/// Why a note is not created, if it is not, given whether an address can
/// be derived for it. The size is looked at first, so a note that is too
/// large is refused as such whatever else is wrong.
pub open spec fn create_refusal_with(accounts: Seq<AccountView>, note: NoteView, derivable: bool) -> Option<
    ProcessError,
> {
    if note_size(note) > MAX_NOTE_SIZE {
        Some(ProcessError::Custom(NotePadError::OutOfLimitedLength))
    } else if accounts.len() < 3 {
        Some(ProcessError::NotEnoughAccountKeys)
    } else if !derivable {
        Some(ProcessError::InvalidSeeds)
    } else {
        None
    }
}

/// The request that creating `note` makes, given the derived address and
/// its bump byte.
pub open spec fn allocation_with(
    program: Seq<u8>,
    accounts: Seq<AccountView>,
    note: NoteView,
    address: Seq<u8>,
    bump: u8,
) -> AllocationView {
    AllocationView {
        payer: accounts[0].key,
        target: accounts[1].key,
        space: note_size(note),
        program,
        address,
        bump,
        note,
    }
}

/// Why `Create` is refused, if it is.
pub open spec fn create_refusal(program: Seq<u8>, accounts: Seq<AccountView>, note: NoteView) -> Option<
    ProcessError,
> {
    create_refusal_with(
        accounts,
        note,
        derived_address(accounts[0].key, encode_utf8(note.title), program) is Some,
    )
}

/// The request that `Create` makes where it is not refused.
pub open spec fn create_request(program: Seq<u8>, accounts: Seq<AccountView>, note: NoteView) -> AllocationView {
    let (address, bump) = derived_address(accounts[0].key, encode_utf8(note.title), program)->0;
    allocation_with(program, accounts, note, address, bump)
}

/// What `process_create` returns.
pub open spec fn created(
    program: Seq<u8>,
    accounts: Seq<AccountView>,
    note: NoteView,
    r: Result<Allocation, ProcessError>,
) -> bool {
    match create_refusal(program, accounts, note) {
        Some(e) => r == Err::<Allocation, ProcessError>(e),
        None => r is Ok && r->Ok_0@ == create_request(program, accounts, note),
    }
}

/// What a granted request leaves behind: the second account is the slot
/// that was asked for, at the derived address and of the size asked for,
/// and the other accounts are as they were. The allocation service grants
/// no request whose target is not the derived address.
pub open spec fn allocated(
    request: AllocationView,
    before: Seq<AccountView>,
    after: Seq<AccountView>,
) -> bool {
    &&& before.len() >= 2
    &&& request.target == request.address
    &&& after.len() == before.len()
    &&& forall|i: int| 0 <= i < before.len() && i != 1 ==> after[i] == before[i]
    &&& after[1].key == request.target
    &&& after[1].owner == request.program
    &&& after[1].data.len() == request.space
}

/// What writing a created note does to the accounts: the new bytes of the
/// second account's slot, or the refusal.
pub open spec fn finish_outcome(accounts: Seq<AccountView>, note: NoteView) -> Result<
    Seq<u8>,
    ProcessError,
> {
    if accounts.len() < 2 {
        Err(ProcessError::NotEnoughAccountKeys)
    } else if note_fits(note) && note_size(note) <= accounts[1].data.len() {
        Ok(note_bytes(note) + accounts[1].data.skip(note_size(note) as int))
    } else {
        Err(ProcessError::BorshIoError)
    }
}

/// What a greeting does to the accounts it is given: the new bytes of the
/// first account's slot, or the refusal.
pub open spec fn greeting_outcome(program: Seq<u8>, accounts: Seq<AccountView>, counter: u32) -> Result<
    Seq<u8>,
    ProcessError,
> {
    if accounts.len() < 1 {
        Err(ProcessError::NotEnoughAccountKeys)
    } else if accounts[0].owner != program {
        Err(ProcessError::Custom(NotePadError::NotOwnedByHelloWrold))
    } else {
        match counter_exactly(accounts[0].data) {
            None => Err(ProcessError::BorshIoError),
            Some(stored) => Ok(u32_bytes(((stored + counter) % 0x1_0000_0000) as u32)),
        }
    }
}

/// A dispatcher's result without the step it leaves to the host.
pub open spec fn finished(r: Result<Step, ProcessError>) -> Result<(), ProcessError> {
    match r {
        Ok(_) => Ok(()),
        Err(e) => Err(e),
    }
}

/// What the dispatcher does with instruction bytes: `InvalidInstructionData`
/// for bytes that are no instruction, and else what the handler of the
/// instruction does.
pub open spec fn dispatched(
    program: Seq<u8>,
    before: Seq<AccountView>,
    bytes: Seq<u8>,
    r: Result<Step, ProcessError>,
    after: Seq<AccountView>,
) -> bool {
    match instruction_exactly(bytes) {
        None => r == Err::<Step, ProcessError>(ProcessError::InvalidInstructionData) && after
            == before,
        Some(InstructionView::Greeting { counter }) => {
            &&& settles(before, 0, greeting_outcome(program, before, counter), finished(r), after)
            &&& r is Ok ==> r->Ok_0 is Done
        },
        Some(InstructionView::Create { note }) => {
            &&& after == before
            &&& match create_refusal(program, before, note) {
                Some(e) => r == Err::<Step, ProcessError>(e),
                None => match r {
                    Ok(Step::Allocate(request)) => request@ == create_request(
                        program,
                        before,
                        note,
                    ),
                    _ => false,
                },
            }
        },
        Some(InstructionView::Modify { note }) => {
            &&& settles(
                before,
                1,
                modify_outcome(program, before, note.title, note.msg, note.owner),
                finished(r),
                after,
            )
            &&& r is Ok ==> r->Ok_0 is Done
        },
    }
}

impl Processor {
    /// Adds `counter` to the counter record in the first account, which the
    /// program must own. The sum wraps at 2^32.
    pub fn process_greeting(program_id: &Identity, accounts: &mut Vec<Account>, counter: u32) -> (r:
        Result<(), ProcessError>)
        ensures
            final(accounts)@.len() == old(accounts)@.len(),
            settles(
                views(old(accounts)@),
                0,
                greeting_outcome(program_id@, views(old(accounts)@), counter),
                r,
                views(final(accounts)@),
            ),
    {
        if accounts.len() < 1 {
            return Err(ProcessError::NotEnoughAccountKeys);
        }
        if !accounts[0].owner.same(program_id) {
            return Err(ProcessError::Custom(NotePadError::NotOwnedByHelloWrold));
        }
        let mut info = match GreetingInfo::try_from_slice(accounts[0].data.as_slice()) {
            Some(info) => info,
            None => {
                return Err(ProcessError::BorshIoError);
            },
        };
        info.counter = info.counter.wrapping_add(counter);
        if !info.serialize(&mut accounts[0].data) {
            return Err(ProcessError::BorshIoError);
        }
        assert(views(accounts@) =~= with_data(views(old(accounts)@), 0, accounts@[0].data@));
        Ok(())
    }

    /// Decides on the creation of a note, given the address derived for its
    /// creator and title: the request to the allocation service, or the
    /// refusal. The accounts are the payer, the slot to be, and the
    /// allocation service.
    pub fn create_with(
        program_id: &Identity,
        accounts: &Vec<Account>,
        derived: Option<(Identity, u8)>,
        title: String,
        msg: String,
        owner: String,
    ) -> (r: Result<Allocation, ProcessError>)
        ensures
            match create_refusal_with(
                views(accounts@),
                NoteView { title: title@, msg: msg@, owner: owner@ },
                derived is Some,
            ) {
                Some(e) => r == Err::<Allocation, ProcessError>(e),
                None => match (derived, r) {
                    (Some((address, bump)), Ok(request)) => request@ == allocation_with(
                        program_id@,
                        views(accounts@),
                        NoteView { title: title@, msg: msg@, owner: owner@ },
                        address@,
                        bump,
                    ),
                    _ => false,
                },
            },
    {
        let note = NotePadAccountInfo { title, msg, owner };
        let space = match note.packed_len() {
            Some(space) => space,
            None => {
                return Err(ProcessError::Custom(NotePadError::OutOfLimitedLength));
            },
        };
        if space > MAX_NOTE_SIZE {
            return Err(ProcessError::Custom(NotePadError::OutOfLimitedLength));
        }
        if accounts.len() < 3 {
            return Err(ProcessError::NotEnoughAccountKeys);
        }
        match derived {
            Some((address, bump)) => Ok(
                Allocation {
                    payer: accounts[0].key,
                    target: accounts[1].key,
                    space,
                    program: *program_id,
                    address,
                    bump,
                    note,
                },
            ),
            None => Err(ProcessError::InvalidSeeds),
        }
    }

    /// Decides on the creation of the note `title` of the first account's
    /// holder. Nothing is allocated or written here: the result is the
    /// request that the host passes to the allocation service.
    pub fn process_create(
        program_id: &Identity,
        accounts: &Vec<Account>,
        title: String,
        msg: String,
        owner: String,
    ) -> (r: Result<Allocation, ProcessError>)
        ensures
            created(
                program_id@,
                views(accounts@),
                NoteView { title: title@, msg: msg@, owner: owner@ },
                r,
            ),
    {
        let derived = if accounts.len() >= 1 {
            derive_address(&accounts[0].key, title.as_str(), program_id)
        } else {
            None
        };
        Self::create_with(program_id, accounts, derived, title, msg, owner)
    }

    /// Writes a created note into the second account's slot, once the
    /// allocation service has made the slot.
    pub fn finish_create(accounts: &mut Vec<Account>, note: &NotePadAccountInfo) -> (r: Result<
        (),
        ProcessError,
    >)
        ensures
            final(accounts)@.len() == old(accounts)@.len(),
            settles(
                views(old(accounts)@),
                1,
                finish_outcome(views(old(accounts)@), note@),
                r,
                views(final(accounts)@),
            ),
    {
        if accounts.len() < 2 {
            return Err(ProcessError::NotEnoughAccountKeys);
        }
        let done = note.serialize(&mut accounts[1].data);
        proof {
            let before = views(old(accounts)@);
            assert(views(accounts@) =~= before.update(1, accounts@[1]@));
            if done {
                assert(accounts@[1]@ == (AccountView { data: accounts@[1].data@, ..before[1] }));
            } else {
                assert(accounts@[1]@ == before[1]);
                assert(before.update(1, before[1]) =~= before);
            }
        }
        if done {
            Ok(())
        } else {
            Err(ProcessError::BorshIoError)
        }
    }

    /// Whether `requester` may change the note in the slot at `slot_key`,
    /// given the address derived for the requester and the address that
    /// the note names as its owner.
    pub fn may_modify(
        requester: &Identity,
        slot_key: &Identity,
        expected: &Option<Identity>,
        holder: &Option<Identity>,
    ) -> (ok: bool)
        ensures
            ok == authorized(requester@, slot_key@, key_of(*expected), key_of(*holder)),
    {
        let by_address = match expected {
            Some(address) => address.same(slot_key),
            None => false,
        };
        let by_name = match holder {
            Some(named) => named.same(requester),
            None => false,
        };
        by_address || by_name
    }

    /// Changes the note in `slot` for `requester`: `stored` with the new
    /// message and owner is written over the slot's front. Nothing is
    /// written for a requester who may not change the note, nor where the
    /// new note does not go into the slot.
    pub fn modify_with(
        requester: &Identity,
        slot: &mut Account,
        expected: Option<Identity>,
        holder: Option<Identity>,
        stored: NotePadAccountInfo,
        msg: String,
        owner: String,
    ) -> (r: Result<(), ProcessError>)
        ensures
            match modify_with_outcome(
                requester@,
                old(slot)@.key,
                old(slot)@.data,
                key_of(expected),
                key_of(holder),
                stored@,
                msg@,
                owner@,
            ) {
                Ok(data) => r is Ok && final(slot)@ == (AccountView { data, ..old(slot)@ }),
                Err(e) => r == Err::<(), ProcessError>(e) && final(slot)@ == old(slot)@,
            },
    {
        if !Self::may_modify(requester, &slot.key, &expected, &holder) {
            return Err(ProcessError::Custom(NotePadError::NotOwnedByHelloWrold));
        }
        let note = NotePadAccountInfo { title: stored.title, msg, owner };
        if note.serialize(&mut slot.data) {
            Ok(())
        } else {
            Err(ProcessError::Custom(NotePadError::OutOfLimitedLength))
        }
    }

    /// Replaces the message and the owner of the note in the second
    /// account, for the holder of the first account. The requester must be
    /// the note's creator or its current owner.
    pub fn process_modify(
        program_id: &Identity,
        accounts: &mut Vec<Account>,
        title: String,
        msg: String,
        owner: String,
    ) -> (r: Result<(), ProcessError>)
        ensures
            final(accounts)@.len() == old(accounts)@.len(),
            settles(
                views(old(accounts)@),
                1,
                modify_outcome(program_id@, views(old(accounts)@), title@, msg@, owner@),
                r,
                views(final(accounts)@),
            ),
    {
        if accounts.len() < 2 {
            return Err(ProcessError::NotEnoughAccountKeys);
        }
        let requester = accounts[0].key;
        let expected = match derive_address(&requester, title.as_str(), program_id) {
            Some((address, _)) => Some(address),
            None => None,
        };
        let stored = match NotePadAccountInfo::try_from_slice_unchecked(accounts[1].data.as_slice()) {
            Some(stored) => stored,
            None => {
                return Err(ProcessError::BorshIoError);
            },
        };
        let holder = parse_identity(stored.owner.as_str());
        let r = Self::modify_with(
            &requester,
            &mut accounts[1],
            expected,
            holder,
            stored,
            msg,
            owner,
        );
        proof {
            let before = views(old(accounts)@);
            assert(views(accounts@) =~= before.update(1, accounts@[1]@));
            if r is Err {
                assert(before.update(1, before[1]) =~= before);
            }
        }
        r
    }

    /// The single entry point: reads the instruction and hands it to its
    /// handler.
    pub fn process_instruction(
        program_id: &Identity,
        accounts: &mut Vec<Account>,
        instruction_data: &[u8],
    ) -> (r: Result<Step, ProcessError>)
        ensures
            final(accounts)@.len() == old(accounts)@.len(),
            dispatched(
                program_id@,
                views(old(accounts)@),
                instruction_data@,
                r,
                views(final(accounts)@),
            ),
    {
        let instruction = match NotePadInstruction::try_from_slice(instruction_data) {
            Some(instruction) => instruction,
            None => {
                return Err(ProcessError::InvalidInstructionData);
            },
        };
        match instruction {
            NotePadInstruction::Create { title, msg, owner } => {
                match Self::process_create(program_id, accounts, title, msg, owner) {
                    Ok(request) => Ok(Step::Allocate(request)),
                    Err(e) => Err(e),
                }
            },
            NotePadInstruction::Modify { title, msg, owner } => {
                match Self::process_modify(program_id, accounts, title, msg, owner) {
                    Ok(()) => Ok(Step::Done),
                    Err(e) => Err(e),
                }
            },
            NotePadInstruction::Greeting { counter } => {
                match Self::process_greeting(program_id, accounts, counter) {
                    Ok(()) => Ok(Step::Done),
                    Err(e) => Err(e),
                }
            },
        }
    }
}

} // verus!
