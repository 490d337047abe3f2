//! Checksums of blocks, to see whether remote storage returned what was written.

use vstd::prelude::*;

use crate::protocol::SequenceHash;
use crate::text::{self, append_decimal, append_hex, is_switched_on};

verus! {

/// A checksum: the BLAKE3 hash of a block in hexadecimal digits.
pub type BlockChecksum = String;

/// The BLAKE3 hash of `data` in hexadecimal digits.
pub uninterp spec fn blake3_hex(data: Seq<u8>) -> Seq<char>;

/// `blake3::hash`, printed with the `Display` of its result: the hash of the data in hexadecimal
/// digits, two for each of its 32 bytes. It depends on the data alone.
#[verifier::external_body]
pub fn compute_checksum(data: &[u8]) -> (checksum: BlockChecksum)
    ensures
        checksum@ == blake3_hex(data@),
        checksum@.len() == 64,
{
    blake3::hash(data).to_string()
}

/// `blake3::Hasher`: an incremental hasher.
#[verifier::external_type_specification]
#[verifier::external_body]
pub struct ExHasher(blake3::Hasher);

/// The bytes that a hasher has taken in.
pub uninterp spec fn absorbed(hasher: blake3::Hasher) -> Seq<u8>;

/// Whether a hasher computes the plain hash: it has no key and starts at the first byte.
pub uninterp spec fn is_plain(hasher: blake3::Hasher) -> bool;

/// `blake3::Hasher::new`: a plain hasher that has taken in nothing.
#[verifier::external_body]
fn new_hasher() -> (hasher: blake3::Hasher)
    ensures
        absorbed(hasher) == Seq::<u8>::empty(),
        is_plain(hasher),
{
    blake3::Hasher::new()
}

/// `blake3::Hasher::update`: takes in more bytes after those it has, and stays as plain as it is.
#[verifier::external_body]
fn update_hasher(hasher: &mut blake3::Hasher, data: &[u8])
    requires
        is_plain(*old(hasher)),
    ensures
        absorbed(*final(hasher)) == absorbed(*old(hasher)) + data@,
        is_plain(*final(hasher)),
{
    hasher.update(data);
}

/// `blake3::Hasher::finalize`, printed with the `Display` of its result: for a plain hasher this
/// is the hash of the bytes that it has taken in, the same as `blake3::hash` of them.
#[verifier::external_body]
fn finalize_hasher(hasher: &blake3::Hasher) -> (checksum: BlockChecksum)
    requires
        is_plain(*hasher),
    ensures
        checksum@ == blake3_hex(absorbed(*hasher)),
        checksum@.len() == 64,
{
    hasher.finalize().to_string()
}

/// Whether `data` has the checksum `expected`.
pub fn verify_checksum(data: &[u8], expected: &str) -> (matches: bool)
    ensures
        matches == (blake3_hex(data@) == expected@),
{
    let expected: String = expected.to_string();
    compute_checksum(data).eq(&expected)
}

/// Computes the checksum of data that comes in pieces.
pub struct ChecksumBuilder {
    hasher: blake3::Hasher,
}

impl View for ChecksumBuilder {
    type V = Seq<u8>;

    /// The bytes so far.
    closed spec fn view(&self) -> Seq<u8> {
        absorbed(self.hasher)
    }
}

impl ChecksumBuilder {
    #[verifier::type_invariant]
    spec fn plain(self) -> bool {
        is_plain(self.hasher)
    }

    /// A builder without data.
    pub fn new() -> (builder: Self)
        ensures
            builder@ == Seq::<u8>::empty(),
    {
        ChecksumBuilder { hasher: new_hasher() }
    }

    /// Adds data.
    pub fn update(&mut self, data: &[u8]) -> (builder: &mut Self)
        ensures
            builder@ == old(self)@ + data@,
            *final(self) == *final(builder),
    {
        proof {
            use_type_invariant(&*self);
        }
        let mut hasher: blake3::Hasher = new_hasher();
        std::mem::swap(&mut hasher, &mut self.hasher);
        update_hasher(&mut hasher, data);
        self.hasher = hasher;
        self
    }

    /// The checksum of all data: the same as that of the data in one piece.
    pub fn finalize(self) -> (checksum: BlockChecksum)
        ensures
            checksum@ == blake3_hex(self@),
            checksum@.len() == 64,
    {
        proof {
            use_type_invariant(&self);
        }
        finalize_hasher(&self.hasher)
    }
}

impl Default for ChecksumBuilder {
    fn default() -> (builder: Self)
        ensures
            builder@ == Seq::<u8>::empty(),
    {
        ChecksumBuilder::new()
    }
}

/// The checksum of a block that was written to remote storage.
#[derive(Debug)]
pub struct G4ChecksumRecord {
    pub sequence_hash: SequenceHash,
    pub checksum: BlockChecksum,
    pub block_size: usize,
}

impl Clone for G4ChecksumRecord {
    fn clone(&self) -> (copy: Self)
        ensures
            copy == *self,
    {
        G4ChecksumRecord {
            sequence_hash: self.sequence_hash,
            checksum: self.checksum.clone(),
            block_size: self.block_size,
        }
    }
}

impl G4ChecksumRecord {
    /// A record.
    pub fn new(sequence_hash: SequenceHash, checksum: BlockChecksum, block_size: usize) -> (record:
        Self)
        ensures
            record.sequence_hash == sequence_hash,
            record.checksum == checksum,
            record.block_size == block_size,
    {
        G4ChecksumRecord { sequence_hash, checksum, block_size }
    }
}

/// Why blocks do not match their checksums.
#[derive(Debug)]
pub enum G4ChecksumError {
    CountMismatch { actual: usize, expected: usize },
    Mismatch { block_index: usize, sequence_hash: SequenceHash, expected: String, actual: String },
}

impl Clone for G4ChecksumError {
    fn clone(&self) -> (copy: Self)
        ensures
            copy == *self,
    {
        match self {
            G4ChecksumError::CountMismatch { actual, expected } => G4ChecksumError::CountMismatch {
                actual: *actual,
                expected: *expected,
            },
            G4ChecksumError::Mismatch { block_index, sequence_hash, expected, actual } =>
            G4ChecksumError::Mismatch {
                block_index: *block_index,
                sequence_hash: *sequence_hash,
                expected: expected.clone(),
                actual: actual.clone(),
            },
        }
    }
}

impl G4ChecksumError {
    /// The text that describes the error.
    pub open spec fn message_view(&self) -> Seq<char> {
        match self {
            G4ChecksumError::CountMismatch { actual, expected } => "Block count mismatch: got "@
                + text::decimal(*actual as nat) + ", expected "@ + text::decimal(*expected as nat),
            G4ChecksumError::Mismatch { block_index, sequence_hash, expected, actual } =>
            "Checksum mismatch at block "@ + text::decimal(*block_index as nat) + " (hash "@
                + text::hex_digits(*sequence_hash as nat, 16) + "): expected "@ + expected@
                + ", got "@ + actual@,
        }
    }

    /// The text that describes the error.
    pub fn to_string(&self) -> (text: String)
        ensures
            text@ == self.message_view(),
    {
        match self {
            G4ChecksumError::CountMismatch { actual, expected } => {
                let mut text: String = "Block count mismatch: got ".to_string();
                append_decimal(&mut text, *actual as u64);
                text.append(", expected ");
                append_decimal(&mut text, *expected as u64);
                text
            },
            G4ChecksumError::Mismatch { block_index, sequence_hash, expected, actual } => {
                let mut text: String = "Checksum mismatch at block ".to_string();
                append_decimal(&mut text, *block_index as u64);
                text.append(" (hash ");
                append_hex(&mut text, *sequence_hash, 16);
                text.append("): expected ");
                text.append(expected.as_str());
                text.append(", got ");
                text.append(actual.as_str());
                text
            },
        }
    }
}

/// The checksums of blocks, each under its hash.
pub fn compute_g4_checksums(
    blocks: &[Vec<u8>],
    block_size: usize,
    sequence_hashes: &[SequenceHash],
) -> (records: Vec<G4ChecksumRecord>)
    requires
        blocks@.len() == sequence_hashes@.len(),
    ensures
        records@.len() == blocks@.len(),
        forall|i: int|
            0 <= i < records@.len() ==> {
                &&& (#[trigger] records@[i]).sequence_hash == sequence_hashes@[i]
                &&& records@[i].checksum@ == blake3_hex(blocks@[i]@)
                &&& records@[i].block_size == block_size
            },
{
    let mut records: Vec<G4ChecksumRecord> = Vec::new();
    let mut i: usize = 0;
    while i < blocks.len()
        invariant
            i <= blocks@.len(),
            blocks@.len() == sequence_hashes@.len(),
            records@.len() == i,
            forall|j: int|
                0 <= j < i ==> {
                    &&& (#[trigger] records@[j]).sequence_hash == sequence_hashes@[j]
                    &&& records@[j].checksum@ == blake3_hex(blocks@[j]@)
                    &&& records@[j].block_size == block_size
                },
        decreases blocks@.len() - i,
    {
        let checksum: BlockChecksum = compute_checksum(blocks[i].as_slice());
        records.push(G4ChecksumRecord::new(sequence_hashes[i], checksum, block_size));
        i = i + 1;
    }
    records
}

/// Whether a block has the checksum of its record.
pub open spec fn is_intact(block: Vec<u8>, record: G4ChecksumRecord) -> bool {
    blake3_hex(block@) == record.checksum@
}

/// Compares blocks with the records of when they were written. The first block that differs is
/// reported.
pub fn verify_g4_checksums(blocks: &[Vec<u8>], expected: &[G4ChecksumRecord]) -> (result: Result<
    (),
    G4ChecksumError,
>)
    ensures
        match result {
            Ok(_) => blocks@.len() == expected@.len() && forall|i: int|
                0 <= i < blocks@.len() ==> is_intact(#[trigger] blocks@[i], expected@[i]),
            Err(G4ChecksumError::CountMismatch { actual, expected: wanted }) => blocks@.len()
                != expected@.len() && actual == blocks@.len() && wanted == expected@.len(),
            Err(
                G4ChecksumError::Mismatch { block_index, sequence_hash, expected: wanted, actual },
            ) => {
                &&& blocks@.len() == expected@.len()
                &&& block_index < blocks@.len()
                &&& forall|i: int|
                    0 <= i < block_index ==> is_intact(#[trigger] blocks@[i], expected@[i])
                &&& !is_intact(blocks@[block_index as int], expected@[block_index as int])
                &&& sequence_hash == expected@[block_index as int].sequence_hash
                &&& wanted@ == expected@[block_index as int].checksum@
                &&& actual@ == blake3_hex(blocks@[block_index as int]@)
            },
        },
{
    if blocks.len() != expected.len() {
        return Err(
            G4ChecksumError::CountMismatch { actual: blocks.len(), expected: expected.len() },
        );
    }
    let mut i: usize = 0;
    while i < blocks.len()
        invariant
            i <= blocks@.len(),
            blocks@.len() == expected@.len(),
            forall|j: int| 0 <= j < i ==> is_intact(#[trigger] blocks@[j], expected@[j]),
        decreases blocks@.len() - i,
    {
        let actual: BlockChecksum = compute_checksum(blocks[i].as_slice());
        if !actual.eq(&expected[i].checksum) {
            return Err(
                G4ChecksumError::Mismatch {
                    block_index: i,
                    sequence_hash: expected[i].sequence_hash,
                    expected: expected[i].checksum.clone(),
                    actual,
                },
            );
        }
        i = i + 1;
    }
    Ok(())
}

/// Blocks that come back as they were written pass the comparison: the records of blocks accept
/// those blocks.
pub proof fn written_blocks_are_intact(blocks: Seq<Vec<u8>>, records: Seq<G4ChecksumRecord>, i: int)
    requires
        blocks.len() == records.len(),
        forall|j: int|
            0 <= j < blocks.len() ==> (#[trigger] records[j]).checksum@ == blake3_hex(blocks[j]@),
        0 <= i < blocks.len(),
    ensures
        is_intact(blocks[i], records[i]),
{
    assert(records[i].checksum@ == blake3_hex(blocks[i]@));
}

/// Whether the checksums of remote blocks are verified, by the setting of the environment.
pub fn g4_checksum_enabled(setting: &Option<String>) -> (enabled: bool)
    ensures
        enabled == text::switches_on(text::text_view(*setting)),
{
    is_switched_on(setting)
}

} // verus!
