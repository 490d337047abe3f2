//! What a request has staged in one storage tier.

use vstd::prelude::*;

use crate::slot_machine::instant_now;

verus! {

/// Something that can be staged, and that can be empty.
pub trait StagingValue: Sized {
    /// Whether there is nothing in it.
    spec fn holds_nothing(&self) -> bool;

    /// Whether there is nothing in it.
    fn is_empty(&self) -> (empty: bool)
        ensures
            empty == self.holds_nothing(),
    ;
}

impl<T> StagingValue for Vec<T> {
    open spec fn holds_nothing(&self) -> bool {
        self@.len() == 0
    }

    fn is_empty(&self) -> (empty: bool) {
        self.len() == 0
    }
}

/// What is staged in a tier, and how many tokens the tier had.
#[derive(Debug)]
pub struct TierState<T> {
    pub staging: Option<T>,
    pub tokens_cached: usize,
}

/// The number of blocks that hold `tokens` tokens.
pub open spec fn blocks_holding(tokens: usize, block_size: usize) -> int {
    (tokens + block_size - 1) / block_size as int
}

impl<T> TierState<T> {
    /// A tier with nothing in it.
    pub fn new() -> (tier: Self)
        ensures
            tier == (TierState::<T> { staging: None, tokens_cached: 0 }),
    {
        TierState { staging: None, tokens_cached: 0 }
    }

    /// Empties the tier.
    pub fn reset(&mut self)
        ensures
            *final(self) == (TierState::<T> { staging: None, tokens_cached: 0 }),
    {
        self.staging = None;
        self.tokens_cached = 0;
    }

    /// Takes what is staged.
    pub fn take_staged(&mut self) -> (staged: Option<T>)
        ensures
            staged == old(self).staging,
            *final(self) == (TierState::<T> { staging: None, ..*old(self) }),
    {
        self.staging.take()
    }

    /// The number of blocks that the cached tokens fill, the last one possibly in part.
    pub fn cached_blocks(&self, block_size: usize) -> (blocks: usize)
        requires
            block_size > 0,
        ensures
            blocks == blocks_holding(self.tokens_cached, block_size),
    {
        let tokens: usize = self.tokens_cached;
        let full: usize = tokens / block_size;
        proof {
            let t = tokens as int;
            let b = block_size as int;
            let q = t / b;
            let r = t % b;
            vstd::arithmetic::div_mod::lemma_fundamental_div_mod(t, b);
            if r == 0 {
                assert((t + b - 1) / b == q) by (nonlinear_arith)
                    requires
                        t == b * q + 0,
                        b > 0,
                ;
            } else {
                assert((t + b - 1) / b == q + 1) by (nonlinear_arith)
                    requires
                        t == b * q + r,
                        0 < r < b,
                ;
                assert(q + 1 <= t) by (nonlinear_arith)
                    requires
                        t == b * q + r,
                        0 < r < b,
                        q >= 0,
                ;
            }
        }
        if tokens % block_size == 0 {
            full
        } else {
            full + 1
        }
    }

    /// Drops what is staged. The request and the label only name the tier to a reader of logs.
    pub fn clear_staging(&mut self, _request_id: &str, _label: &str)
        ensures
            *final(self) == (TierState::<T> { staging: None, ..*old(self) }),
    {
        self.staging = None;
    }

    /// Notes how many tokens the tier had.
    pub fn record_cached_tokens(&mut self, n: usize)
        ensures
            *final(self) == (TierState::<T> { tokens_cached: n, ..*old(self) }),
    {
        self.tokens_cached = n;
    }
}

impl<T: StagingValue> TierState<T> {
    /// Stages `value`, unless there is nothing in it.
    pub fn stage_non_empty(&mut self, value: T)
        ensures
            *final(self) == (TierState::<T> {
                staging: if value.holds_nothing() {
                    None
                } else {
                    Some(value)
                },
                ..*old(self)
            }),
    {
        self.staging = if !value.is_empty() {
            Some(value)
        } else {
            None
        };
    }
}

impl<T> Default for TierState<T> {
    fn default() -> (tier: Self)
        ensures
            tier == (TierState::<T> { staging: None, tokens_cached: 0 }),
    {
        TierState::new()
    }
}

/// What a request has staged in remote storage. `P` is a lookup that is under way.
#[derive(Debug)]
pub struct G4State<P> {
    pub tier: TierState<Vec<u64>>,
    pub skip_on_retry: bool,
    pub retry_count: u32,
    /// The hashes of the last onboard with their positions.
    pub attempted_hashes: Option<Vec<(u64, u32)>>,
    pub onboarding_started_at: Option<std::time::Instant>,
    pub pending_lookup: Option<P>,
}

impl<P> G4State<P> {
    /// Whether nothing is staged, tried or under way.
    pub open spec fn is_fresh(self) -> bool {
        self == (G4State::<P> {
            tier: TierState { staging: None, tokens_cached: 0 },
            skip_on_retry: false,
            retry_count: 0,
            attempted_hashes: None,
            onboarding_started_at: None,
            pending_lookup: None,
        })
    }

    /// Nothing is staged, tried or under way.
    pub fn new() -> (state: Self)
        ensures
            state.is_fresh(),
    {
        G4State {
            tier: TierState::new(),
            skip_on_retry: false,
            retry_count: 0,
            attempted_hashes: None,
            onboarding_started_at: None,
            pending_lookup: None,
        }
    }

    /// Back to the start.
    pub fn reset(&mut self)
        ensures
            final(self).is_fresh(),
    {
        self.tier.reset();
        self.skip_on_retry = false;
        self.retry_count = 0;
        self.attempted_hashes = None;
        self.onboarding_started_at = None;
        self.pending_lookup = None;
    }

    /// Drops what is staged and the lookup that is under way.
    pub fn clear_all(&mut self, request_id: &str)
        ensures
            *final(self) == (G4State::<P> {
                tier: TierState { staging: None, ..old(self).tier },
                pending_lookup: None,
                ..*old(self)
            }),
    {
        self.tier.clear_staging(request_id, "g4 hashes");
        self.pending_lookup = None;
    }

    /// Whether a lookup is under way.
    pub fn has_pending_lookup(&self) -> (pending: bool)
        ensures
            pending == (self.pending_lookup is Some),
    {
        self.pending_lookup.is_some()
    }

    /// Notes which hashes an onboard that starts now asks for, with their positions.
    pub fn prepare_onboard(&mut self, hashes: &[u64])
        ensures
            final(self).attempted_hashes matches Some(attempted) && attempted@ == positioned(
                hashes@,
            ),
            final(self).onboarding_started_at is Some,
            *final(self) == (G4State::<P> {
                attempted_hashes: final(self).attempted_hashes,
                onboarding_started_at: final(self).onboarding_started_at,
                ..*old(self)
            }),
    {
        let mut attempted: Vec<(u64, u32)> = Vec::new();
        let mut i: usize = 0;
        while i < hashes.len()
            invariant
                i <= hashes@.len(),
                attempted@ =~= positioned(hashes@).subrange(0, i as int),
            decreases hashes@.len() - i,
        {
            attempted.push((hashes[i], #[verifier::truncate] (i as u32)));
            i = i + 1;
        }
        assert(attempted@ =~= positioned(hashes@));
        self.attempted_hashes = Some(attempted);
        self.onboarding_started_at = Some(instant_now());
    }
}

/// Hashes with their positions.
pub open spec fn positioned(hashes: Seq<u64>) -> Seq<(u64, u32)> {
    Seq::new(hashes.len(), |i: int| (hashes[i], i as u32))
}

impl<P> Default for G4State<P> {
    fn default() -> (state: Self)
        ensures
            state.is_fresh(),
    {
        G4State::new()
    }
}

} // verus!
