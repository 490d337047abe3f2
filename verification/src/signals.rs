//! Completion of the transfers of each request, as the leader polls it.

use vstd::prelude::*;

use crate::protocol::{OperationId, TransferType};

verus! {

/// How far a registered transfer is.
#[derive(Debug, Clone, Copy, PartialEq, Eq, Structural)]
pub enum SignalState {
    Pending,
    Completed,
    Failed,
}

/// A registered transfer.
#[derive(Debug)]
pub struct SignalEntry {
    pub operation_id: OperationId,
    pub request_id: String,
    pub transfer_type: TransferType,
    pub state: SignalState,
}

/// The mathematical value of a [`SignalEntry`].
pub struct SignalEntryView {
    pub operation_id: OperationId,
    pub request_id: Seq<char>,
    pub transfer_type: TransferType,
    pub state: SignalState,
}

impl View for SignalEntry {
    type V = SignalEntryView;

    open spec fn view(&self) -> SignalEntryView {
        SignalEntryView {
            operation_id: self.operation_id,
            request_id: self.request_id@,
            transfer_type: self.transfer_type,
            state: self.state,
        }
    }
}

/// The transfers of all requests, in the order they were registered.
#[derive(Debug)]
pub struct TransferSignal {
    entries: Vec<SignalEntry>,
}

spec fn entry_views(entries: Seq<SignalEntry>) -> Seq<SignalEntryView> {
    entries.map_values(|entry: SignalEntry| entry@)
}

impl View for TransferSignal {
    type V = Seq<SignalEntryView>;

    closed spec fn view(&self) -> Seq<SignalEntryView> {
        entry_views(self.entries@)
    }
}

/// Whether `entry` is a transfer of `request_id` of the given type.
pub open spec fn is_of(entry: SignalEntryView, request_id: Seq<char>, kind: TransferType) -> bool {
    entry.request_id == request_id && entry.transfer_type == kind
}

/// Whether some transfer of `request_id` of the given type is registered.
pub open spec fn has_any(
    entries: Seq<SignalEntryView>,
    request_id: Seq<char>,
    kind: TransferType,
) -> bool {
    exists|i: int| 0 <= i < entries.len() && is_of(#[trigger] entries[i], request_id, kind)
}

/// Whether some transfer of `request_id` of the given type is still running.
pub open spec fn has_pending(
    entries: Seq<SignalEntryView>,
    request_id: Seq<char>,
    kind: TransferType,
) -> bool {
    exists|i: int|
        0 <= i < entries.len() && is_of(#[trigger] entries[i], request_id, kind)
            && entries[i].state == SignalState::Pending
}

/// Whether the transfers of `request_id` of the given type are over, where there are any.
pub open spec fn all_done(
    entries: Seq<SignalEntryView>,
    request_id: Seq<char>,
    kind: TransferType,
) -> Option<bool> {
    if has_any(entries, request_id, kind) {
        Some(!has_pending(entries, request_id, kind))
    } else {
        None
    }
}

/// Whether the loads of `request_id` are over, where there are any.
pub open spec fn loads_done(entries: Seq<SignalEntryView>, request_id: Seq<char>) -> Option<bool> {
    all_done(entries, request_id, TransferType::Load)
}

/// Whether the stores of `request_id` are over, where there are any.
pub open spec fn stores_done(entries: Seq<SignalEntryView>, request_id: Seq<char>) -> Option<bool> {
    all_done(entries, request_id, TransferType::Store)
}

/// Whether some transfer of `request_id` failed.
pub open spec fn failed(entries: Seq<SignalEntryView>, request_id: Seq<char>) -> bool {
    exists|i: int|
        0 <= i < entries.len() && (#[trigger] entries[i]).request_id == request_id
            && entries[i].state == SignalState::Failed
}

/// The entries that do not belong to `request_id`.
pub open spec fn without(entries: Seq<SignalEntryView>, request_id: Seq<char>) -> Seq<
    SignalEntryView,
>
    decreases entries.len(),
{
    if entries.len() == 0 {
        Seq::empty()
    } else {
        let head = without(entries.drop_last(), request_id);
        if entries.last().request_id == request_id {
            head
        } else {
            head.push(entries.last())
        }
    }
}

/// With every entry of `operation_id` ended.
pub open spec fn ended(entries: Seq<SignalEntryView>, operation_id: OperationId, success: bool) -> Seq<
    SignalEntryView,
> {
    entries.map_values(
        |entry: SignalEntryView|
            if entry.operation_id == operation_id {
                SignalEntryView {
                    state: if success {
                        SignalState::Completed
                    } else {
                        SignalState::Failed
                    },
                    ..entry
                }
            } else {
                entry
            },
    )
}

impl TransferSignal {
    /// No transfer is registered.
    pub fn new() -> (signal: Self)
        ensures
            signal@ == Seq::<SignalEntryView>::empty(),
    {
        let signal = TransferSignal { entries: Vec::new() };
        assert(signal@ =~= Seq::<SignalEntryView>::empty());
        signal
    }

    /// Registers a transfer that starts now.
    pub fn register(
        &mut self,
        operation_id: OperationId,
        request_id: String,
        transfer_type: TransferType,
    )
        ensures
            final(self)@ == old(self)@.push(
                SignalEntryView {
                    operation_id,
                    request_id: request_id@,
                    transfer_type,
                    state: SignalState::Pending,
                },
            ),
    {
        self.entries.push(
            SignalEntry { operation_id, request_id, transfer_type, state: SignalState::Pending },
        );
        assert(self@ =~= old(self)@.push(
            SignalEntryView {
                operation_id,
                request_id: request_id@,
                transfer_type,
                state: SignalState::Pending,
            },
        ));
    }

    /// Notes that a transfer ended.
    pub fn finish(&mut self, operation_id: OperationId, success: bool)
        ensures
            final(self)@ == ended(old(self)@, operation_id, success),
    {
        let mut done: Vec<SignalEntry> = Vec::new();
        let mut rest: Vec<SignalEntry> = Vec::new();
        std::mem::swap(&mut rest, &mut self.entries);
        let ghost all = rest@;
        while rest.len() > 0
            invariant
                all.len() == done@.len() + rest@.len(),
                entry_views(all) == old(self)@,
                forall|j: int| 0 <= j < rest@.len() ==> rest@[j] == all[done@.len() + j],
                entry_views(done@) =~= ended(old(self)@, operation_id, success).subrange(
                    0,
                    done@.len() as int,
                ),
            decreases rest@.len(),
        {
            let ghost left = rest@;
            let ghost before = done@;
            let mut entry: SignalEntry = rest.remove(0);
            assert(entry == all[before.len() as int]);
            assert(entry_views(all)[before.len() as int] == entry@);
            if entry.operation_id == operation_id {
                entry.state = if success {
                    SignalState::Completed
                } else {
                    SignalState::Failed
                };
            }
            done.push(entry);
            assert(entry_views(done@) =~= entry_views(before).push(entry@));
            assert(ended(old(self)@, operation_id, success)[before.len() as int] == entry@);
        }
        self.entries = done;
        assert(self@ =~= ended(old(self)@, operation_id, success));
    }

    fn is_done(&self, request_id: &String, kind: TransferType) -> (done: Option<bool>)
        ensures
            done == all_done(self@, request_id@, kind),
    {
        let mut any: bool = false;
        let mut pending: bool = false;
        let mut i: usize = 0;
        while i < self.entries.len()
            invariant
                i <= self.entries@.len(),
                any == exists|j: int| 0 <= j < i && is_of(#[trigger] self@[j], request_id@, kind),
                pending == exists|j: int|
                    0 <= j < i && is_of(#[trigger] self@[j], request_id@, kind) && self@[j].state
                        == SignalState::Pending,
            decreases self.entries@.len() - i,
        {
            assert(self@[i as int] == self.entries@[i as int]@);
            if self.entries[i].request_id.eq(request_id) && self.entries[i].transfer_type == kind {
                any = true;
                if self.entries[i].state == SignalState::Pending {
                    pending = true;
                }
            }
            i = i + 1;
        }
        if any {
            Some(!pending)
        } else {
            None
        }
    }

    /// Whether the loads of `request_id` are over: nothing where none is registered.
    pub fn is_loads_done(&self, request_id: &String) -> (done: Option<bool>)
        ensures
            done == loads_done(self@, request_id@),
    {
        self.is_done(request_id, TransferType::Load)
    }

    /// Whether the stores of `request_id` are over: nothing where none is registered.
    pub fn is_stores_done(&self, request_id: &String) -> (done: Option<bool>)
        ensures
            done == stores_done(self@, request_id@),
    {
        self.is_done(request_id, TransferType::Store)
    }

    /// Whether some transfer of `request_id` failed.
    pub fn has_failed(&self, request_id: &String) -> (any: bool)
        ensures
            any == failed(self@, request_id@),
    {
        let mut i: usize = 0;
        while i < self.entries.len()
            invariant
                i <= self.entries@.len(),
                forall|j: int|
                    0 <= j < i ==> !((#[trigger] self@[j]).request_id == request_id@
                        && self@[j].state == SignalState::Failed),
            decreases self.entries@.len() - i,
        {
            assert(self@[i as int] == self.entries@[i as int]@);
            if self.entries[i].request_id.eq(request_id) && self.entries[i].state
                == SignalState::Failed {
                return true;
            }
            i = i + 1;
        }
        false
    }

    /// Forgets every transfer of `request_id`.
    pub fn remove(&mut self, request_id: &String)
        ensures
            final(self)@ == without(old(self)@, request_id@),
    {
        let mut kept: Vec<SignalEntry> = Vec::new();
        let mut rest: Vec<SignalEntry> = Vec::new();
        std::mem::swap(&mut rest, &mut self.entries);
        let ghost all = rest@;
        let ghost mut n: int = 0;
        assert(old(self)@.subrange(0, 0) =~= Seq::<SignalEntryView>::empty());
        assert(entry_views(kept@) =~= Seq::<SignalEntryView>::empty());
        while rest.len() > 0
            invariant
                0 <= n,
                all.len() == n + rest@.len(),
                entry_views(all) == old(self)@,
                forall|j: int| 0 <= j < rest@.len() ==> rest@[j] == all[n + j],
                entry_views(kept@) == without(old(self)@.subrange(0, n), request_id@),
            decreases rest@.len(),
        {
            let ghost before = kept@;
            let entry: SignalEntry = rest.remove(0);
            assert(entry == all[n]);
            assert(entry_views(all)[n] == entry@);
            assert(old(self)@.subrange(0, n + 1).drop_last() =~= old(self)@.subrange(0, n));
            if !entry.request_id.eq(request_id) {
                kept.push(entry);
                assert(entry_views(kept@) =~= entry_views(before).push(entry@));
            }
            proof {
                n = n + 1;
            }
        }
        assert(old(self)@.subrange(0, n) =~= old(self)@);
        self.entries = kept;
    }

    /// Forgets every transfer.
    pub fn clear(&mut self)
        ensures
            final(self)@ == Seq::<SignalEntryView>::empty(),
    {
        self.entries = Vec::new();
        assert(self@ =~= Seq::<SignalEntryView>::empty());
    }
}

/// A request whose transfers were forgotten has no loads, no stores and no failure, and the
/// transfers of other requests are untouched.
pub proof fn forgotten_request_is_silent(
    entries: Seq<SignalEntryView>,
    request_id: Seq<char>,
    other: Seq<char>,
)
    requires
        other != request_id,
    ensures
        loads_done(without(entries, request_id), request_id) is None,
        stores_done(without(entries, request_id), request_id) is None,
        !failed(without(entries, request_id), request_id),
        loads_done(without(entries, request_id), other) == loads_done(entries, other),
        stores_done(without(entries, request_id), other) == stores_done(entries, other),
        failed(without(entries, request_id), other) == failed(entries, other),
    decreases entries.len(),
{
    if entries.len() > 0 {
        let front = entries.drop_last();
        forgotten_request_is_silent(front, request_id, other);
        let kept = without(front, request_id);
        let after = without(entries, request_id);
        appended_entry(front, entries.last(), other, TransferType::Load);
        appended_entry(kept, entries.last(), other, TransferType::Load);
        appended_entry(kept, entries.last(), request_id, TransferType::Load);
        appended_entry(front, entries.last(), other, TransferType::Store);
        appended_entry(kept, entries.last(), other, TransferType::Store);
        appended_entry(kept, entries.last(), request_id, TransferType::Store);
        assert(front.push(entries.last()) =~= entries);
    }
}

proof fn appended_entry(
    entries: Seq<SignalEntryView>,
    entry: SignalEntryView,
    request_id: Seq<char>,
    kind: TransferType,
)
    ensures
        has_any(entries.push(entry), request_id, kind) == (has_any(entries, request_id, kind)
            || is_of(entry, request_id, kind)),
        has_pending(entries.push(entry), request_id, kind) == (has_pending(
            entries,
            request_id,
            kind,
        ) || (is_of(entry, request_id, kind) && entry.state == SignalState::Pending)),
        failed(entries.push(entry), request_id) == (failed(entries, request_id) || (entry.request_id
            == request_id && entry.state == SignalState::Failed)),
{
    let all = entries.push(entry);
    assert(all[entries.len() as int] == entry);
    assert forall|i: int| 0 <= i < entries.len() implies all[i] == #[trigger] entries[i] by {}
    if has_any(entries, request_id, kind) {
        let i = choose|i: int|
            0 <= i < entries.len() && is_of(#[trigger] entries[i], request_id, kind);
        assert(is_of(all[i], request_id, kind));
    }
    if has_pending(entries, request_id, kind) {
        let i = choose|i: int|
            0 <= i < entries.len() && is_of(#[trigger] entries[i], request_id, kind)
                && entries[i].state == SignalState::Pending;
        assert(is_of(all[i], request_id, kind));
    }
    if failed(entries, request_id) {
        let i = choose|i: int|
            0 <= i < entries.len() && (#[trigger] entries[i]).request_id == request_id
                && entries[i].state == SignalState::Failed;
        assert(all[i].request_id == request_id);
    }
}

/// Forgetting a request takes exactly its own transfers out: an entry stays if and only if it
/// belongs to another request.
pub proof fn forgetting_takes_one_request(
    entries: Seq<SignalEntryView>,
    request_id: Seq<char>,
    entry: SignalEntryView,
)
    ensures
        without(entries, request_id).contains(entry) <==> entries.contains(entry)
            && entry.request_id != request_id,
    decreases entries.len(),
{
    let after = without(entries, request_id);
    if entries.len() == 0 {
        assert(!after.contains(entry));
    } else {
        let front = entries.drop_last();
        let head = without(front, request_id);
        forgetting_takes_one_request(front, request_id, entry);
        assert(entries.contains(entry) <==> front.contains(entry) || entries.last() == entry) by {
            if front.contains(entry) {
                let i = front.index_of(entry);
                assert(entries[i] == entry);
            }
            if entries.contains(entry) {
                let i = entries.index_of(entry);
                if i < front.len() {
                    assert(front[i] == entry);
                }
            }
            assert(entries[entries.len() - 1] == entries.last());
        }
        if entries.last().request_id != request_id {
            assert(after.contains(entry) <==> head.contains(entry) || entries.last() == entry) by {
                if head.contains(entry) {
                    let i = head.index_of(entry);
                    assert(after[i] == entry);
                }
                if after.contains(entry) {
                    let i = after.index_of(entry);
                    if i < head.len() {
                        assert(head[i] == entry);
                    }
                }
                assert(after[after.len() - 1] == entries.last());
            }
        }
    }
}

/// The loads of a request are over exactly if one is registered and none of them is pending, and
/// they are not over exactly if one of them is pending. The same holds of its stores.
pub proof fn transfers_are_over_when_none_is_pending(
    entries: Seq<SignalEntryView>,
    request_id: Seq<char>,
)
    ensures
        loads_done(entries, request_id) is None <==> forall|i: int|
            0 <= i < entries.len() ==> !((#[trigger] entries[i]).request_id == request_id
                && entries[i].transfer_type == TransferType::Load),
        loads_done(entries, request_id) == Some(false) <==> exists|i: int|
            0 <= i < entries.len() && (#[trigger] entries[i]).request_id == request_id
                && entries[i].transfer_type == TransferType::Load && entries[i].state
                == SignalState::Pending,
        stores_done(entries, request_id) is None <==> forall|i: int|
            0 <= i < entries.len() ==> !((#[trigger] entries[i]).request_id == request_id
                && entries[i].transfer_type == TransferType::Store),
        stores_done(entries, request_id) == Some(false) <==> exists|i: int|
            0 <= i < entries.len() && (#[trigger] entries[i]).request_id == request_id
                && entries[i].transfer_type == TransferType::Store && entries[i].state
                == SignalState::Pending,
        failed(entries, request_id) <==> exists|i: int|
            0 <= i < entries.len() && (#[trigger] entries[i]).request_id == request_id
                && entries[i].state == SignalState::Failed,
{
    if exists|i: int|
        0 <= i < entries.len() && (#[trigger] entries[i]).request_id == request_id
            && entries[i].transfer_type == TransferType::Load && entries[i].state
            == SignalState::Pending {
        let i = choose|i: int|
            0 <= i < entries.len() && (#[trigger] entries[i]).request_id == request_id
                && entries[i].transfer_type == TransferType::Load && entries[i].state
                == SignalState::Pending;
        assert(is_of(entries[i], request_id, TransferType::Load));
    }
    if exists|i: int|
        0 <= i < entries.len() && (#[trigger] entries[i]).request_id == request_id
            && entries[i].transfer_type == TransferType::Store && entries[i].state
            == SignalState::Pending {
        let i = choose|i: int|
            0 <= i < entries.len() && (#[trigger] entries[i]).request_id == request_id
                && entries[i].transfer_type == TransferType::Store && entries[i].state
                == SignalState::Pending;
        assert(is_of(entries[i], request_id, TransferType::Store));
    }
    assert forall|kind: TransferType| #[trigger] has_any(entries, request_id, kind) <==> exists|
        i: int,
    |
        0 <= i < entries.len() && (#[trigger] entries[i]).request_id == request_id
            && entries[i].transfer_type == kind by {
        if exists|i: int|
            0 <= i < entries.len() && (#[trigger] entries[i]).request_id == request_id
                && entries[i].transfer_type == kind {
            let i = choose|i: int|
                0 <= i < entries.len() && (#[trigger] entries[i]).request_id == request_id
                    && entries[i].transfer_type == kind;
            assert(is_of(entries[i], request_id, kind));
        }
    }
    assert(has_any(entries, request_id, TransferType::Load) == has_any(
        entries,
        request_id,
        TransferType::Load,
    ));
    assert(has_any(entries, request_id, TransferType::Store) == has_any(
        entries,
        request_id,
        TransferType::Store,
    ));
}

/// The end of an operation reaches exactly its own entries, which keep their place: those are
/// completed or failed as it was reported, and every other entry stays as it is.
pub proof fn ends_reach_their_own_operation(
    entries: Seq<SignalEntryView>,
    operation_id: OperationId,
    success: bool,
    i: int,
)
    requires
        0 <= i < entries.len(),
    ensures
        ({
            let after = ended(entries, operation_id, success);
            &&& after.len() == entries.len()
            &&& after[i].operation_id == entries[i].operation_id
            &&& after[i].request_id == entries[i].request_id
            &&& after[i].transfer_type == entries[i].transfer_type
            &&& entries[i].operation_id != operation_id ==> after[i].state == entries[i].state
            &&& entries[i].operation_id == operation_id && success ==> after[i].state
                == SignalState::Completed
            &&& entries[i].operation_id == operation_id && !success ==> after[i].state
                == SignalState::Failed
        }),
{
}

} // verus!
