//! Token sequences cut into blocks of a fixed size.

use vstd::prelude::*;

use crate::protocol::SequenceHash;

verus! {

/// A full block of tokens and the hash that identifies it together with its prefix.
#[derive(Debug, Eq)]
pub struct TokenBlock {
    tokens: Vec<u32>,
    sequence_hash: SequenceHash,
}

/// The mathematical value of a [`TokenBlock`].
#[verifier::ext_equal]
pub struct TokenBlockView {
    pub tokens: Seq<u32>,
    pub sequence_hash: SequenceHash,
}

impl View for TokenBlock {
    type V = TokenBlockView;

    closed spec fn view(&self) -> TokenBlockView {
        TokenBlockView { tokens: self.tokens@, sequence_hash: self.sequence_hash }
    }
}

impl PartialEq for TokenBlock {
    fn eq(&self, other: &Self) -> (same: bool) {
        if self.sequence_hash != other.sequence_hash || self.tokens.len() != other.tokens.len() {
            return false;
        }
        let mut i: usize = 0;
        while i < self.tokens.len()
            invariant
                i <= self.tokens@.len(),
                self.tokens@.len() == other.tokens@.len(),
                self.sequence_hash == other.sequence_hash,
                forall|j: int| 0 <= j < i ==> self.tokens@[j] == other.tokens@[j],
            decreases self.tokens@.len() - i,
        {
            if self.tokens[i] != other.tokens[i] {
                return false;
            }
            i = i + 1;
        }
        assert(self.tokens@ =~= other.tokens@);
        true
    }
}

impl vstd::std_specs::cmp::PartialEqSpecImpl for TokenBlock {
    open spec fn obeys_eq_spec() -> bool {
        true
    }

    open spec fn eq_spec(&self, other: &Self) -> bool {
        self@ == other@
    }
}

impl Clone for TokenBlock {
    fn clone(&self) -> (copy: Self)
        ensures
            copy@ == self@,
    {
        let tokens: Vec<u32> = self.tokens.clone();
        assert(tokens@ =~= self.tokens@);
        TokenBlock { tokens, sequence_hash: self.sequence_hash }
    }
}

impl TokenBlock {
    /// A block of `tokens` identified by `sequence_hash`.
    pub fn new(tokens: Vec<u32>, sequence_hash: SequenceHash) -> (block: Self)
        ensures
            block@ == (TokenBlockView { tokens: tokens@, sequence_hash }),
    {
        TokenBlock { tokens, sequence_hash }
    }

    /// The hash that identifies the block.
    pub fn sequence_hash(&self) -> (hash: SequenceHash)
        ensures
            hash == self@.sequence_hash,
    {
        self.sequence_hash
    }

    /// The tokens of the block.
    pub fn tokens(&self) -> (tokens: &[u32])
        ensures
            tokens@ == self@.tokens,
    {
        self.tokens.as_slice()
    }
}

/// The views of a sequence of token blocks.
pub open spec fn block_views(blocks: Seq<TokenBlock>) -> Seq<TokenBlockView> {
    blocks.map_values(|block: TokenBlock| block@)
}

/// A token sequence: all tokens, and one hash per full block.
#[derive(Debug)]
pub struct TokenBlockSequence {
    tokens: Vec<u32>,
    hashes: Vec<SequenceHash>,
    block_size: usize,
}

/// The mathematical value of a [`TokenBlockSequence`].
#[verifier::ext_equal]
pub struct SequenceView {
    pub tokens: Seq<u32>,
    pub hashes: Seq<SequenceHash>,
    pub block_size: nat,
}

impl SequenceView {
    /// The `i`th full block.
    pub open spec fn block(self, i: int) -> TokenBlockView {
        TokenBlockView {
            tokens: self.tokens.subrange(i * self.block_size, (i + 1) * self.block_size),
            sequence_hash: self.hashes[i],
        }
    }

    /// The full blocks from `start` up to but not including `end`.
    pub open spec fn block_range(self, start: int, end: int) -> Seq<TokenBlockView> {
        Seq::new((end - start) as nat, |i: int| self.block(start + i))
    }

    /// The first block that `hash` identifies.
    pub open spec fn find(self, hash: SequenceHash) -> Option<TokenBlockView> {
        if self.hashes.contains(hash) {
            Some(self.block(self.hashes.index_of_first(hash)->0))
        } else {
            None
        }
    }

    /// The blocks that `hashes` identify, in the order of `hashes`; a hash that identifies no
    /// block is left out.
    pub open spec fn resolve(self, hashes: Seq<SequenceHash>) -> Seq<TokenBlockView>
        decreases hashes.len(),
    {
        if hashes.len() == 0 {
            Seq::empty()
        } else {
            let head = self.resolve(hashes.drop_last());
            match self.find(hashes.last()) {
                Some(block) => head.push(block),
                None => head,
            }
        }
    }

    /// Every full block has a hash, and blocks hold at least one token.
    pub open spec fn wf(self) -> bool {
        &&& self.block_size > 0
        &&& self.hashes.len() == self.tokens.len() / self.block_size
    }
}

impl View for TokenBlockSequence {
    type V = SequenceView;

    closed spec fn view(&self) -> SequenceView {
        SequenceView {
            tokens: self.tokens@,
            hashes: self.hashes@,
            block_size: self.block_size as nat,
        }
    }
}

impl TokenBlockSequence {
    #[verifier::type_invariant]
    spec fn inv(self) -> bool {
        self@.wf()
    }

    /// The sequence of `tokens` cut into blocks of `block_size`, whose full blocks are
    /// identified by `hashes` in order.
    pub fn new(tokens: Vec<u32>, block_size: usize, hashes: Vec<SequenceHash>) -> (sequence: Self)
        requires
            block_size > 0,
            hashes@.len() == tokens@.len() / block_size as nat,
        ensures
            sequence@ == (SequenceView {
                tokens: tokens@,
                hashes: hashes@,
                block_size: block_size as nat,
            }),
            sequence@.wf(),
    {
        TokenBlockSequence { tokens, hashes, block_size }
    }

    /// The number of tokens, those of an unfinished last block included.
    pub fn total_tokens(&self) -> (n: usize)
        ensures
            n == self@.tokens.len(),
    {
        self.tokens.len()
    }

    /// The number of tokens in a block. Every sequence has one hash per full block.
    pub fn block_size(&self) -> (n: usize)
        ensures
            n == self@.block_size,
            self@.wf(),
    {
        proof {
            use_type_invariant(self);
        }
        self.block_size
    }

    /// The number of full blocks.
    pub fn num_blocks(&self) -> (n: usize)
        ensures
            n == self@.hashes.len(),
    {
        self.hashes.len()
    }

    /// The hash of the `i`th full block.
    pub fn sequence_hash(&self, i: usize) -> (hash: SequenceHash)
        requires
            i < self@.hashes.len(),
        ensures
            hash == self@.hashes[i as int],
    {
        self.hashes[i]
    }

    /// The hashes of the full blocks from the `start`th on.
    pub fn hashes_from(&self, start: usize) -> (hashes: Vec<SequenceHash>)
        ensures
            hashes@ == if start <= self@.hashes.len() {
                self@.hashes.subrange(start as int, self@.hashes.len() as int)
            } else {
                Seq::empty()
            },
    {
        let mut hashes: Vec<SequenceHash> = Vec::new();
        let mut i: usize = start;
        while i < self.hashes.len()
            invariant
                start <= i,
                start <= self.hashes@.len() ==> i <= self.hashes@.len(),
                hashes@ =~= if start <= self.hashes@.len() {
                    self.hashes@.subrange(start as int, i as int)
                } else {
                    Seq::empty()
                },
            decreases self.hashes@.len() - i,
        {
            hashes.push(self.hashes[i]);
            i = i + 1;
        }
        hashes
    }

    /// A copy of the `i`th full block.
    pub fn block(&self, i: usize) -> (block: TokenBlock)
        requires
            i < self@.hashes.len(),
        ensures
            block@ == self@.block(i as int),
    {
        proof {
            use_type_invariant(self);
            assert((i + 1) * self.block_size <= self.tokens@.len()) by (nonlinear_arith)
                requires
                    i < self.tokens@.len() / self.block_size as nat,
                    self.block_size > 0,
            ;
            assert(i * self.block_size + self.block_size == (i + 1) * self.block_size)
                by (nonlinear_arith);
        }
        let total: usize = self.tokens.len();
        assert(i * self.block_size <= total);
        let start: usize = i * self.block_size;
        let end: usize = start + self.block_size;
        let mut tokens: Vec<u32> = Vec::new();
        let mut j: usize = start;
        while j < end
            invariant
                start <= j <= end <= self.tokens@.len(),
                tokens@ =~= self.tokens@.subrange(start as int, j as int),
            decreases end - j,
        {
            tokens.push(self.tokens[j]);
            j = j + 1;
        }
        TokenBlock { tokens, sequence_hash: self.hashes[i] }
    }

    /// Copies of the full blocks from `start` up to but not including `end`.
    pub fn block_range(&self, start: usize, end: usize) -> (blocks: Vec<TokenBlock>)
        requires
            start <= end <= self@.hashes.len(),
        ensures
            block_views(blocks@) == self@.block_range(start as int, end as int),
    {
        let mut blocks: Vec<TokenBlock> = Vec::new();
        let mut i: usize = start;
        while i < end
            invariant
                start <= i <= end <= self@.hashes.len(),
                block_views(blocks@) =~= self@.block_range(start as int, i as int),
            decreases end - i,
        {
            let ghost before = blocks@;
            let block: TokenBlock = self.block(i);
            blocks.push(block);
            assert(block_views(blocks@) =~= block_views(before).push(block@));
            assert(self@.block_range(start as int, i + 1) =~= self@.block_range(
                start as int,
                i as int,
            ).push(self@.block(i as int)));
            i = i + 1;
        }
        blocks
    }

    /// Copies of all full blocks.
    pub fn blocks(&self) -> (blocks: Vec<TokenBlock>)
        ensures
            block_views(blocks@) == self@.block_range(0, self@.hashes.len() as int),
    {
        self.block_range(0, self.hashes.len())
    }

    /// A copy of the first block that `hash` identifies.
    pub fn find(&self, hash: SequenceHash) -> (block: Option<TokenBlock>)
        ensures
            match block {
                Some(b) => self@.find(hash) == Some(b@),
                None => self@.find(hash) is None,
            },
    {
        let mut i: usize = 0;
        while i < self.hashes.len()
            invariant
                i <= self.hashes@.len(),
                forall|j: int| 0 <= j < i ==> self.hashes@[j] != hash,
            decreases self.hashes@.len() - i,
        {
            if self.hashes[i] == hash {
                proof {
                    assert(self@.hashes.contains(hash));
                    self@.hashes.index_of_first_ensures(hash);
                    let first = self@.hashes.index_of_first(hash)->0;
                    assert(first == i);
                }
                return Some(self.block(i));
            }
            i = i + 1;
        }
        None
    }

    /// Copies of the blocks that `hashes` identify, in order, skipping unknown hashes.
    pub fn resolve(&self, hashes: &[SequenceHash]) -> (blocks: Vec<TokenBlock>)
        ensures
            block_views(blocks@) == self@.resolve(hashes@),
    {
        let mut blocks: Vec<TokenBlock> = Vec::new();
        let mut i: usize = 0;
        assert(hashes@.subrange(0, 0) =~= Seq::<SequenceHash>::empty());
        while i < hashes.len()
            invariant
                i <= hashes@.len(),
                block_views(blocks@) =~= self@.resolve(hashes@.subrange(0, i as int)),
            decreases hashes@.len() - i,
        {
            let ghost before = blocks@;
            let ghost upto = hashes@.subrange(0, i + 1);
            assert(upto.drop_last() =~= hashes@.subrange(0, i as int));
            match self.find(hashes[i]) {
                Some(block) => {
                    blocks.push(block);
                    assert(block_views(blocks@) =~= block_views(before).push(block@));
                },
                None => {},
            }
            i = i + 1;
        }
        assert(hashes@.subrange(0, hashes@.len() as int) =~= hashes@);
        blocks
    }

    /// Appends `tokens`; `hashes` identify the blocks that they complete, in order.
    pub fn extend(&mut self, tokens: &[u32], hashes: &[SequenceHash])
        requires
            old(self)@.hashes.len() + hashes@.len() == (old(self)@.tokens.len() + tokens@.len())
                as nat / old(self)@.block_size,
        ensures
            final(self)@ == (SequenceView {
                tokens: old(self)@.tokens + tokens@,
                hashes: old(self)@.hashes + hashes@,
                block_size: old(self)@.block_size,
            }),
    {
        proof {
            use_type_invariant(&*self);
        }
        let mut taken = TokenBlockSequence {
            tokens: Vec::new(),
            hashes: Vec::new(),
            block_size: self.block_size,
        };
        std::mem::swap(self, &mut taken);
        let block_size: usize = taken.block_size;
        let mut all_tokens: Vec<u32> = taken.tokens;
        let mut all_hashes: Vec<SequenceHash> = taken.hashes;
        all_tokens.extend_from_slice(tokens);
        all_hashes.extend_from_slice(hashes);
        assert(all_tokens@ =~= old(self)@.tokens + tokens@);
        assert(all_hashes@ =~= old(self)@.hashes + hashes@);
        *self = TokenBlockSequence { tokens: all_tokens, hashes: all_hashes, block_size };
    }
}

} // verus!
