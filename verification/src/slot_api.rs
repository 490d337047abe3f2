//! Slot states, errors and operations, as the leader sees them.

use vstd::prelude::*;

use crate::protocol::{BlockId, SequenceHash, SlotKey, WorkerTransferRequest};
use crate::slot_machine::{EventView, PhaseView};
use crate::slot_manager::ManagerView;
use crate::slot_ops::TrackerView;
use crate::slot_runtime::SlotView;
use crate::text::{self, append_decimal};
use crate::tokens::{SequenceView, TokenBlockSequence};

verus! {

/// Why a slot operation was refused.
#[derive(Debug)]
pub enum SlotError {
    NotFound,
    InvalidState(String),
    InvalidOperation(String),
    BlockPoolError(String),
}

impl SlotError {
    /// The text that describes the error.
    pub open spec fn message_view(&self) -> Seq<char> {
        match self {
            SlotError::NotFound => "slot not found"@,
            SlotError::InvalidState(detail) => "slot is in an invalid state: "@ + detail@,
            SlotError::InvalidOperation(detail) => "slot operation failed: "@ + detail@,
            SlotError::BlockPoolError(detail) => detail@,
        }
    }

    /// The text that describes the error.
    pub fn to_string(&self) -> (text: String)
        ensures
            text@ == self.message_view(),
    {
        match self {
            SlotError::NotFound => "slot not found".to_string(),
            SlotError::InvalidState(detail) => {
                let mut text = "slot is in an invalid state: ".to_string();
                text.append(detail.as_str());
                text
            },
            SlotError::InvalidOperation(detail) => {
                let mut text = "slot operation failed: ".to_string();
                text.append(detail.as_str());
                text
            },
            SlotError::BlockPoolError(detail) => detail.clone(),
        }
    }
}

/// The coarse state of a slot, as the scheduler sees it.
#[derive(Debug, Clone, Copy, PartialEq, Eq, Structural)]
pub enum SlotState {
    Initialized,
    OnboardStaged(usize),
    Onboarding(usize),
    Prefilling,
    SkippedPrefill,
    Decoding,
    SkippedDecode,
    Finishing,
    Finished,
    Preempted,
}

impl SlotState {
    /// The name of the state, with the number of tokens where it has one.
    pub open spec fn name_view(self) -> Seq<char> {
        match self {
            SlotState::Initialized => "Initialized"@,
            SlotState::OnboardStaged(tokens) => "OnboardStaged("@ + text::decimal(tokens as nat)
                + ")"@,
            SlotState::Onboarding(tokens) => "Onboarding("@ + text::decimal(tokens as nat) + ")"@,
            SlotState::Prefilling => "Prefilling"@,
            SlotState::SkippedPrefill => "SkippedPrefill"@,
            SlotState::Decoding => "Decoding"@,
            SlotState::SkippedDecode => "SkippedDecode"@,
            SlotState::Finishing => "Finishing"@,
            SlotState::Finished => "Finished"@,
            SlotState::Preempted => "Preempted"@,
        }
    }

    /// The name of the state, with the number of tokens where it has one.
    pub fn name(&self) -> (name: String)
        ensures
            name@ == self.name_view(),
    {
        match self {
            SlotState::Initialized => "Initialized".to_string(),
            SlotState::OnboardStaged(tokens) => {
                let mut name: String = "OnboardStaged(".to_string();
                append_decimal(&mut name, *tokens as u64);
                name.append(")");
                name
            },
            SlotState::Onboarding(tokens) => {
                let mut name: String = "Onboarding(".to_string();
                append_decimal(&mut name, *tokens as u64);
                name.append(")");
                name
            },
            SlotState::Prefilling => "Prefilling".to_string(),
            SlotState::SkippedPrefill => "SkippedPrefill".to_string(),
            SlotState::Decoding => "Decoding".to_string(),
            SlotState::SkippedDecode => "SkippedDecode".to_string(),
            SlotState::Finishing => "Finishing".to_string(),
            SlotState::Finished => "Finished".to_string(),
            SlotState::Preempted => "Preempted".to_string(),
        }
    }
}

/// The slot of a request, as the leader drives it.
pub trait Slot: View<V = SlotView> + Sized {
    /// The request id.
    fn request_id(&self) -> (id: &str)
        ensures
            id@ == self@.request_id,
    ;

    /// The state that the scheduler sees.
    fn state(&self) -> (state: SlotState)
        ensures
            state == self@.phase.slot_state(),
    ;

    /// The token sequence.
    fn sequence(&self) -> (sequence: &TokenBlockSequence)
        ensures
            sequence@ == self@.sequence,
    ;

    /// The position.
    fn computed_tokens(&self) -> (n: usize)
        ensures
            n == self@.current_position,
    ;

    /// Takes over what the scheduler decided, without considering offloads.
    fn apply_scheduler_output(
        &mut self,
        tokens: &[u32],
        block_hashes: &[SequenceHash],
        block_ids: &[BlockId],
        num_computed_tokens: usize,
        num_scheduled_tokens: usize,
        _priorities: Option<&[u32]>,
    ) -> (result: Result<(), SlotError>)
        requires
            old(self)@.wf(),
            old(self)@.sequence.hashes.len() + block_hashes@.len() == (
            old(self)@.sequence.tokens.len() + tokens@.len()) as nat
                / old(self)@.sequence.block_size,
        ensures
            result is Ok,
            final(self)@.wf(),
            old(self)@.scheduled(
                tokens@,
                block_hashes@,
                block_ids@,
                num_computed_tokens,
                num_scheduled_tokens,
                final(self)@,
            ),
    ;

    /// The iteration is kept in the phase; nothing is left to record.
    fn record_start_iteration(&mut self, _iteration: u64) -> (result: Result<(), SlotError>)
        ensures
            result is Ok,
            final(self)@ == old(self)@,
    ;

    /// Moves the slot to prefilling.
    fn mark_as_prefilling(&mut self, iteration: u64) -> (result: Result<(), SlotError>)
        ensures
            result is Ok,
            final(self)@ == old(self)@.in_phase(
                PhaseView::Prefilling { iteration_first_scheduled: iteration },
            ),
    ;

    /// Moves the slot to decoding, with no operation open.
    fn mark_as_decoding(&mut self, iteration: u64) -> (result: Result<(), SlotError>)
        ensures
            result is Ok,
            final(self)@ == old(self)@.in_phase(
                PhaseView::Decoding {
                    ops: TrackerView::empty(),
                    iteration_first_scheduled: iteration,
                },
            ),
    ;

    /// Ends the request, as far as its phase allows.
    fn mark_as_finished(&mut self, _iteration: u64) -> (result: Result<(), SlotError>)
        ensures
            result is Ok,
            old(self)@.after(EventView::RequestFinished, final(self)@),
    ;

    /// The number of device blocks.
    fn num_device_blocks_allocated(&self) -> (n: usize)
        ensures
            n == self@.device_blocks.len(),
    ;

    /// Starts a lookup of cached blocks, without carrying out its effects.
    fn acquire_local_matches(&mut self, num_computed_tokens: usize) -> (result: Result<
        (),
        SlotError,
    >)
        ensures
            result is Ok,
            old(self)@.after(EventView::AcquireMatches { num_computed_tokens }, final(self)@),
    ;

    /// Starts onboarding into all device blocks of the slot, without carrying out its effects.
    fn trigger_onboarding(&mut self, num_external_tokens: usize) -> (result: Result<
        (),
        SlotError,
    >)
        ensures
            result is Ok,
            exists|now: std::time::Instant| #[trigger]
                old(self)@.after_at(
                    EventView::AllocCompleted {
                        block_ids: old(self)@.device_blocks,
                        num_external_tokens,
                    },
                    now,
                    final(self)@,
                ),
    ;

    /// Worker operations are collected in the effect context; the slot holds none.
    fn take_pending_operations(&mut self) -> (ops: Option<Vec<WorkerTransferRequest>>)
        ensures
            ops is None,
            final(self)@ == old(self)@,
    ;

    /// Notes how many tokens the device had cached.
    fn record_cached_device_tokens(&mut self, num_tokens: usize)
        ensures
            final(self)@ == (SlotView { tokens_cached_from_device: num_tokens, ..old(self)@ }),
    ;

    /// Notes how many tokens the host tier had cached.
    fn record_cached_host_tokens(&mut self, num_tokens: usize)
        ensures
            final(self)@ == (SlotView { tokens_cached_from_host: num_tokens, ..old(self)@ }),
    ;

    /// Notes how many tokens the disk tier had cached.
    fn record_cached_disk_tokens(&mut self, num_tokens: usize)
        ensures
            final(self)@ == (SlotView { tokens_cached_from_disk: num_tokens, ..old(self)@ }),
    ;

    /// Resets the slot after the engine preempted the request and freed its device blocks.
    /// Staged blocks are released by the state machine.
    fn reset_after_preemption(&mut self)
        ensures
            old(self)@.without_device_blocks().after(EventView::Preempt, final(self)@),
    ;

    /// Puts the slot back to its start, as far as the device and the phase are concerned.
    fn reset(&mut self)
        ensures
            final(self)@ == old(self)@.without_device_blocks().in_phase(PhaseView::Initialized),
    ;
}

/// A slot whose device blocks the engine allocates.
pub trait ExternallyManagedDeviceSlot: Slot {
    /// Moves the position forward, but not beyond the end of the sequence.
    fn advance_computed_position(&mut self, num_tokens: usize) -> (result: Result<
        (),
        SlotError,
    >)
        ensures
            if old(self)@.current_position + num_tokens <= old(self)@.sequence.tokens.len() {
                &&& result is Ok
                &&& final(self)@ == (SlotView {
                    current_position: (old(self)@.current_position + num_tokens) as usize,
                    ..old(self)@
                })
            } else {
                &&& final(self)@ == old(self)@
                &&& result matches Err(SlotError::InvalidOperation(message))
                &&& message@ == "cannot advance computed position from "@ + text::decimal(
                    old(self)@.current_position as nat,
                ) + " by "@ + text::decimal(num_tokens as nat) + " tokens, total tokens is "@
                    + text::decimal(old(self)@.sequence.tokens.len())
            },
    ;

    /// Takes over the full device block table of the engine. A table that continues the known
    /// one is appended, the same table changes nothing, and any other table replaces the known
    /// one.
    fn append_mutable_device_blocks(&mut self, block_ids: &[BlockId]) -> (result: Result<
        (),
        SlotError,
    >)
        ensures
            result is Ok,
            final(self)@ == old(self)@.with_table(block_ids@),
            old(self)@.wf() ==> final(self)@.wf(),
    ;

    /// Sets the baggage of the request.
    fn set_request_baggage(&mut self, baggage: Option<String>)
        ensures
            final(self)@ == (SlotView { baggage: text::text_view(baggage), ..old(self)@ }),
    ;
}

/// The slots of all requests by their keys.
pub trait SlotManager: View<V = ManagerView> + Sized {
    /// What the manager keeps for each request.
    type SlotType: Slot;

    /// Whether there is a slot under `key`.
    fn has_slot(&self, key: &SlotKey) -> (found: bool)
        ensures
            found == self@.slots.dom().contains(key@),
    ;

    /// Puts a fresh slot for `tokens` under `key`, whatever was there before. `hashes` identify
    /// the full blocks of `tokens`.
    fn create_slot(
        &mut self,
        key: &SlotKey,
        tokens: Vec<u32>,
        hashes: Vec<SequenceHash>,
    ) -> (result: Result<(), SlotError>)
        requires
            old(self)@.wf(),
            tokens@.len() > 0,
            hashes@.len() == tokens@.len() / old(self)@.block_size as nat,
        ensures
            result is Ok,
            final(self)@.wf(),
            final(self)@ == old(self)@.with_slot(
                key@,
                SlotView::fresh(
                    key@.0,
                    SequenceView {
                        tokens: tokens@,
                        hashes: hashes@,
                        block_size: old(self)@.block_size as nat,
                    },
                    old(self)@.block_size,
                ),
            ),
    ;

    /// Takes the slot under `key` out, to work on it.
    fn take_slot(&mut self, key: &SlotKey) -> (slot: Result<Self::SlotType, SlotError>)
        requires
            old(self)@.wf(),
        ensures
            final(self)@.wf(),
            final(self)@ == (ManagerView { slots: old(self)@.slots.remove(key@), ..old(self)@ }),
            match slot {
                Ok(slot) => old(self)@.slots.dom().contains(key@) && slot@
                    == old(self)@.slots[key@] && old(self)@.fits(key@, slot@),
                Err(error) => !old(self)@.slots.dom().contains(key@) && error
                    == SlotError::NotFound,
            },
    ;

    /// Drops the slot under `key`, where there is one.
    fn remove_slot(&mut self, key: &SlotKey) -> (result: Result<(), SlotError>)
        requires
            old(self)@.wf(),
        ensures
            result is Ok,
            final(self)@.wf(),
            final(self)@ == (ManagerView { slots: old(self)@.slots.remove(key@), ..old(self)@ }),
    ;
}

} // verus!
