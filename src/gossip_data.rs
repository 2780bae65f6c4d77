//! Gossip records: a closed union of cluster-metadata kinds, each naming the
//! node it comes from, and the signed envelope around one record.

use vstd::prelude::*;
use crate::contact_info::{ContactInfo, LegacyContactInfo};
use crate::crypto::{
    Digest, Identity, Pubkey, Signature, ed25519_signature, signature_valid, verify_signature,
};
use crate::wire::{
    concat_map, enc_bytes, enc_len, enc_option_u32, enc_option_u64, enc_u16, enc_u32, enc_u64,
    enc_u8, enc_vec, lemma_concat_map_step, put_bytes, put_len, put_option_u32, put_option_u64,
    put_raw, put_u16, put_u32, put_u64, put_u8,
};

verus! {

pub type Slot = u64;

pub type VoteIndex = u8;

pub type EpochSlotsIndex = u8;

pub type DuplicateShredIndex = u16;

pub open spec fn u64_enc() -> spec_fn(u64) -> Seq<u8> {
    |x: u64| enc_u64(x)
}

pub open spec fn u16_enc() -> spec_fn(u16) -> Seq<u8> {
    |x: u16| enc_u16(x)
}

/// A slot and the hash recorded for it.
pub open spec fn enc_slot_hash(x: (Slot, Digest)) -> Seq<u8> {
    enc_u64(x.0) + x.1@
}

pub open spec fn slot_hash_enc() -> spec_fn((Slot, Digest)) -> Seq<u8> {
    |x: (Slot, Digest)| enc_slot_hash(x)
}

fn put_u64s(out: &mut Vec<u8>, s: &Vec<u64>)
    ensures
        final(out)@ == old(out)@ + enc_vec(s@, u64_enc()),
{
    put_len(out, s.len());
    let ghost base = out@;
    let mut i: usize = 0;
    while i < s.len()
        invariant
            0 <= i <= s@.len(),
            base == old(out)@ + enc_len(s@.len()),
            out@ == base + concat_map(s@.take(i as int), u64_enc()),
        decreases s@.len() - i,
    {
        proof {
            lemma_concat_map_step(s@, u64_enc(), i as int);
        }
        put_u64(out, s[i]);
        assert(out@ =~= base + concat_map(s@.take(i + 1), u64_enc()));
        i = i + 1;
    }
    assert(s@.take(s@.len() as int) =~= s@);
    assert(out@ =~= old(out)@ + enc_vec(s@, u64_enc()));
}

fn put_u16s(out: &mut Vec<u8>, s: &Vec<u16>)
    ensures
        final(out)@ == old(out)@ + enc_vec(s@, u16_enc()),
{
    put_len(out, s.len());
    let ghost base = out@;
    let mut i: usize = 0;
    while i < s.len()
        invariant
            0 <= i <= s@.len(),
            base == old(out)@ + enc_len(s@.len()),
            out@ == base + concat_map(s@.take(i as int), u16_enc()),
        decreases s@.len() - i,
    {
        proof {
            lemma_concat_map_step(s@, u16_enc(), i as int);
        }
        put_u16(out, s[i]);
        assert(out@ =~= base + concat_map(s@.take(i + 1), u16_enc()));
        i = i + 1;
    }
    assert(s@.take(s@.len() as int) =~= s@);
    assert(out@ =~= old(out)@ + enc_vec(s@, u16_enc()));
}

fn put_slot_hash(out: &mut Vec<u8>, x: &(Slot, Digest))
    ensures
        final(out)@ == old(out)@ + enc_slot_hash(*x),
{
    put_u64(out, x.0);
    put_raw(out, x.1.as_slice());
    assert(out@ =~= old(out)@ + enc_slot_hash(*x));
}

fn put_slot_hashes(out: &mut Vec<u8>, s: &Vec<(Slot, Digest)>)
    ensures
        final(out)@ == old(out)@ + enc_vec(s@, slot_hash_enc()),
{
    put_len(out, s.len());
    let ghost base = out@;
    let mut i: usize = 0;
    while i < s.len()
        invariant
            0 <= i <= s@.len(),
            base == old(out)@ + enc_len(s@.len()),
            out@ == base + concat_map(s@.take(i as int), slot_hash_enc()),
        decreases s@.len() - i,
    {
        proof {
            lemma_concat_map_step(s@, slot_hash_enc(), i as int);
        }
        put_slot_hash(out, &s[i]);
        assert(out@ =~= base + concat_map(s@.take(i + 1), slot_hash_enc()));
        i = i + 1;
    }
    assert(s@.take(s@.len() as int) =~= s@);
    assert(out@ =~= old(out)@ + enc_vec(s@, slot_hash_enc()));
}

/// A vote: the voting transaction, carried in its wire form.
#[derive(Debug)]
pub struct Vote {
    pub from: Pubkey,
    pub transaction: Vec<u8>,
    pub wallclock: u64,
    pub slot: Option<Slot>,
}

impl Vote {
    pub open spec fn enc(&self) -> Seq<u8> {
        self.from@ + self.transaction@ + enc_u64(self.wallclock) + enc_option_u64(self.slot)
    }

    pub fn encode(&self, out: &mut Vec<u8>)
        ensures
            final(out)@ == old(out)@ + self.enc(),
    {
        put_raw(out, self.from.as_slice());
        put_raw(out, self.transaction.as_slice());
        put_u64(out, self.wallclock);
        put_option_u64(out, self.slot);
        assert(out@ =~= old(out)@ + self.enc());
    }
}

/// How a list of slots was compressed.
#[derive(Debug)]
pub enum CompressionType {
    Uncompressed,
    GZip,
    BZip2,
}

impl CompressionType {
    pub open spec fn index(&self) -> u32 {
        match self {
            CompressionType::Uncompressed => 0,
            CompressionType::GZip => 1,
            CompressionType::BZip2 => 2,
        }
    }
}

/// The incomplete slots of an epoch, from `first` on, compressed.
#[derive(Debug)]
pub struct EpochIncompleteSlots {
    pub first: Slot,
    pub compression: CompressionType,
    pub compressed_list: Vec<u8>,
}

pub open spec fn enc_stash_item(x: EpochIncompleteSlots) -> Seq<u8> {
    enc_u64(x.first) + enc_u32(x.compression.index()) + enc_bytes(x.compressed_list@)
}

pub open spec fn stash_enc() -> spec_fn(EpochIncompleteSlots) -> Seq<u8> {
    |x: EpochIncompleteSlots| enc_stash_item(x)
}

fn put_stash_item(out: &mut Vec<u8>, x: &EpochIncompleteSlots)
    ensures
        final(out)@ == old(out)@ + enc_stash_item(*x),
{
    put_u64(out, x.first);
    let index: u32 = match x.compression {
        CompressionType::Uncompressed => 0,
        CompressionType::GZip => 1,
        CompressionType::BZip2 => 2,
    };
    put_u32(out, index);
    put_bytes(out, &x.compressed_list);
    assert(out@ =~= old(out)@ + enc_stash_item(*x));
}

fn put_stash(out: &mut Vec<u8>, s: &Vec<EpochIncompleteSlots>)
    ensures
        final(out)@ == old(out)@ + enc_vec(s@, stash_enc()),
{
    put_len(out, s.len());
    let ghost base = out@;
    let mut i: usize = 0;
    while i < s.len()
        invariant
            0 <= i <= s@.len(),
            base == old(out)@ + enc_len(s@.len()),
            out@ == base + concat_map(s@.take(i as int), stash_enc()),
        decreases s@.len() - i,
    {
        proof {
            lemma_concat_map_step(s@, stash_enc(), i as int);
        }
        put_stash_item(out, &s[i]);
        assert(out@ =~= base + concat_map(s@.take(i + 1), stash_enc()));
        i = i + 1;
    }
    assert(s@.take(s@.len() as int) =~= s@);
    assert(out@ =~= old(out)@ + enc_vec(s@, stash_enc()));
}

/// The lowest slot a node holds. `slots` is a set, in ascending order.
#[derive(Debug)]
pub struct LowestSlot {
    pub from: Pubkey,
    pub root: Slot,
    pub lowest: Slot,
    pub slots: Vec<Slot>,
    pub stash: Vec<EpochIncompleteSlots>,
    pub wallclock: u64,
}

impl LowestSlot {
    /// `slots` is a set kept in ascending order: each slot is below the next.
    pub open spec fn wf(&self) -> bool {
        forall|i: int, j: int| 0 <= i < j < self.slots@.len() ==> self.slots@[i] < self.slots@[j]
    }

    pub open spec fn enc(&self) -> Seq<u8> {
        self.from@ + enc_u64(self.root) + enc_u64(self.lowest) + enc_vec(self.slots@, u64_enc())
            + enc_vec(self.stash@, stash_enc()) + enc_u64(self.wallclock)
    }

    pub fn encode(&self, out: &mut Vec<u8>)
        ensures
            final(out)@ == old(out)@ + self.enc(),
    {
        put_raw(out, self.from.as_slice());
        put_u64(out, self.root);
        put_u64(out, self.lowest);
        put_u64s(out, &self.slots);
        put_stash(out, &self.stash);
        put_u64(out, self.wallclock);
        assert(out@ =~= old(out)@ + self.enc());
    }
}

/// Account hashes at given slots.
#[derive(Debug)]
pub struct AccountsHashes {
    pub from: Pubkey,
    pub hashes: Vec<(Slot, Digest)>,
    pub wallclock: u64,
}

/// The snapshot hashes of the earlier protocol, laid out as account hashes.
pub type LegacySnapshotHashes = AccountsHashes;

impl AccountsHashes {
    pub open spec fn enc(&self) -> Seq<u8> {
        self.from@ + enc_vec(self.hashes@, slot_hash_enc()) + enc_u64(self.wallclock)
    }

    pub fn encode(&self, out: &mut Vec<u8>)
        ensures
            final(out)@ == old(out)@ + self.enc(),
    {
        put_raw(out, self.from.as_slice());
        put_slot_hashes(out, &self.hashes);
        put_u64(out, self.wallclock);
        assert(out@ =~= old(out)@ + self.enc());
    }
}

/// A bit vector: its storage blocks and its length in bits.
#[derive(Debug)]
pub struct BitVec {
    pub blocks: Vec<u8>,
    pub len: u64,
}

impl BitVec {
    pub open spec fn enc(&self) -> Seq<u8> {
        enc_bytes(self.blocks@) + enc_u64(self.len)
    }

    pub fn encode(&self, out: &mut Vec<u8>)
        ensures
            final(out)@ == old(out)@ + self.enc(),
    {
        put_bytes(out, &self.blocks);
        put_u64(out, self.len);
        assert(out@ =~= old(out)@ + self.enc());
    }
}

/// `num` slots from `first_slot` on, as a deflate-compressed bitmap.
#[derive(Debug)]
pub struct Flate2 {
    pub first_slot: Slot,
    pub num: usize,
    pub compressed: Vec<u8>,
}

/// `num` slots from `first_slot` on, as a plain bitmap.
#[derive(Debug)]
pub struct Uncompressed {
    pub first_slot: Slot,
    pub num: usize,
    pub slots: BitVec,
}

/// A run of slots in one of two encodings, told apart by the variant index.
#[derive(Debug)]
pub enum CompressedSlots {
    Flate2(Flate2),
    Uncompressed(Uncompressed),
}

pub open spec fn enc_compressed_slots(x: CompressedSlots) -> Seq<u8> {
    match x {
        CompressedSlots::Flate2(f) => enc_u32(0) + enc_u64(f.first_slot) + enc_len(f.num as nat)
            + enc_bytes(f.compressed@),
        CompressedSlots::Uncompressed(u) => enc_u32(1) + enc_u64(u.first_slot) + enc_len(
            u.num as nat,
        ) + u.slots.enc(),
    }
}

pub open spec fn compressed_slots_enc() -> spec_fn(CompressedSlots) -> Seq<u8> {
    |x: CompressedSlots| enc_compressed_slots(x)
}

fn put_compressed_slots(out: &mut Vec<u8>, x: &CompressedSlots)
    ensures
        final(out)@ == old(out)@ + enc_compressed_slots(*x),
{
    match x {
        CompressedSlots::Flate2(f) => {
            put_u32(out, 0);
            put_u64(out, f.first_slot);
            put_len(out, f.num);
            put_bytes(out, &f.compressed);
        },
        CompressedSlots::Uncompressed(u) => {
            put_u32(out, 1);
            put_u64(out, u.first_slot);
            put_len(out, u.num);
            u.slots.encode(out);
        },
    }
    assert(out@ =~= old(out)@ + enc_compressed_slots(*x));
}

fn put_compressed_list(out: &mut Vec<u8>, s: &Vec<CompressedSlots>)
    ensures
        final(out)@ == old(out)@ + enc_vec(s@, compressed_slots_enc()),
{
    put_len(out, s.len());
    let ghost base = out@;
    let mut i: usize = 0;
    while i < s.len()
        invariant
            0 <= i <= s@.len(),
            base == old(out)@ + enc_len(s@.len()),
            out@ == base + concat_map(s@.take(i as int), compressed_slots_enc()),
        decreases s@.len() - i,
    {
        proof {
            lemma_concat_map_step(s@, compressed_slots_enc(), i as int);
        }
        put_compressed_slots(out, &s[i]);
        assert(out@ =~= base + concat_map(s@.take(i + 1), compressed_slots_enc()));
        i = i + 1;
    }
    assert(s@.take(s@.len() as int) =~= s@);
    assert(out@ =~= old(out)@ + enc_vec(s@, compressed_slots_enc()));
}

/// The slots a node holds in an epoch.
#[derive(Debug)]
pub struct EpochSlots {
    pub from: Pubkey,
    pub slots: Vec<CompressedSlots>,
    pub wallclock: u64,
}

impl EpochSlots {
    pub open spec fn enc(&self) -> Seq<u8> {
        self.from@ + enc_vec(self.slots@, compressed_slots_enc()) + enc_u64(self.wallclock)
    }

    pub fn encode(&self, out: &mut Vec<u8>)
        ensures
            final(out)@ == old(out)@ + self.enc(),
    {
        put_raw(out, self.from.as_slice());
        put_compressed_list(out, &self.slots);
        put_u64(out, self.wallclock);
        assert(out@ =~= old(out)@ + self.enc());
    }
}

/// A software version, first form.
#[derive(Debug)]
pub struct LegacyVersion1 {
    pub major: u16,
    pub minor: u16,
    pub patch: u16,
    pub commit: Option<u32>,
}

/// A software version, second form: with the feature set.
#[derive(Debug)]
pub struct LegacyVersion2 {
    pub major: u16,
    pub minor: u16,
    pub patch: u16,
    pub commit: Option<u32>,
    pub feature_set: u32,
}

/// The software version a node runs, first form.
#[derive(Debug)]
pub struct LegacyVersion {
    pub from: Pubkey,
    pub wallclock: u64,
    pub version: LegacyVersion1,
}

impl LegacyVersion {
    pub open spec fn enc(&self) -> Seq<u8> {
        self.from@ + enc_u64(self.wallclock) + enc_u16(self.version.major) + enc_u16(
            self.version.minor,
        ) + enc_u16(self.version.patch) + enc_option_u32(self.version.commit)
    }

    pub fn encode(&self, out: &mut Vec<u8>)
        ensures
            final(out)@ == old(out)@ + self.enc(),
    {
        put_raw(out, self.from.as_slice());
        put_u64(out, self.wallclock);
        put_u16(out, self.version.major);
        put_u16(out, self.version.minor);
        put_u16(out, self.version.patch);
        put_option_u32(out, self.version.commit);
        assert(out@ =~= old(out)@ + self.enc());
    }
}

/// The software version a node runs, second form.
#[derive(Debug)]
pub struct Version {
    pub from: Pubkey,
    pub wallclock: u64,
    pub version: LegacyVersion2,
}

impl Version {
    pub open spec fn enc(&self) -> Seq<u8> {
        self.from@ + enc_u64(self.wallclock) + enc_u16(self.version.major) + enc_u16(
            self.version.minor,
        ) + enc_u16(self.version.patch) + enc_option_u32(self.version.commit) + enc_u32(
            self.version.feature_set,
        )
    }

    pub fn encode(&self, out: &mut Vec<u8>)
        ensures
            final(out)@ == old(out)@ + self.enc(),
    {
        put_raw(out, self.from.as_slice());
        put_u64(out, self.wallclock);
        put_u16(out, self.version.major);
        put_u16(out, self.version.minor);
        put_u16(out, self.version.patch);
        put_option_u32(out, self.version.commit);
        put_u32(out, self.version.feature_set);
        assert(out@ =~= old(out)@ + self.enc());
    }
}

/// A token that tells apart two instances of one node.
#[derive(Debug)]
pub struct NodeInstance {
    pub from: Pubkey,
    pub wallclock: u64,
    pub timestamp: u64,
    pub token: u64,
}

impl NodeInstance {
    pub open spec fn enc(&self) -> Seq<u8> {
        self.from@ + enc_u64(self.wallclock) + enc_u64(self.timestamp) + enc_u64(self.token)
    }

    pub fn encode(&self, out: &mut Vec<u8>)
        ensures
            final(out)@ == old(out)@ + self.enc(),
    {
        put_raw(out, self.from.as_slice());
        put_u64(out, self.wallclock);
        put_u64(out, self.timestamp);
        put_u64(out, self.token);
        assert(out@ =~= old(out)@ + self.enc());
    }
}

/// The kind of shred a duplicate proof was about.
#[derive(Debug)]
pub enum ShredType {
    Data,
    Code,
}

/// One chunk, `chunk_index` out of `num_chunks`, of a proof that a slot's
/// leader produced two different shreds.
#[derive(Debug)]
pub struct DuplicateShred {
    pub from: Pubkey,
    pub wallclock: u64,
    pub slot: Slot,
    pub unused: u32,
    pub unused_shred_type: ShredType,
    pub num_chunks: u8,
    pub chunk_index: u8,
    pub chunk: Vec<u8>,
}

impl DuplicateShred {
    pub open spec fn enc(&self) -> Seq<u8> {
        self.from@ + enc_u64(self.wallclock) + enc_u64(self.slot) + enc_u32(self.unused) + enc_u32(
            match self.unused_shred_type {
                ShredType::Data => 0u32,
                ShredType::Code => 1u32,
            },
        ) + enc_u8(self.num_chunks) + enc_u8(self.chunk_index) + enc_bytes(self.chunk@)
    }

    pub fn encode(&self, out: &mut Vec<u8>)
        ensures
            final(out)@ == old(out)@ + self.enc(),
    {
        put_raw(out, self.from.as_slice());
        put_u64(out, self.wallclock);
        put_u64(out, self.slot);
        put_u32(out, self.unused);
        let kind: u32 = match self.unused_shred_type {
            ShredType::Data => 0,
            ShredType::Code => 1,
        };
        put_u32(out, kind);
        put_u8(out, self.num_chunks);
        put_u8(out, self.chunk_index);
        put_bytes(out, &self.chunk);
        assert(out@ =~= old(out)@ + self.enc());
    }
}

/// The full and incremental snapshots a node offers.
#[derive(Debug)]
pub struct SnapshotHashes {
    pub from: Pubkey,
    pub full: (Slot, Digest),
    pub incremental: Vec<(Slot, Digest)>,
    pub wallclock: u64,
}

impl SnapshotHashes {
    pub open spec fn enc(&self) -> Seq<u8> {
        self.from@ + enc_slot_hash(self.full) + enc_vec(self.incremental@, slot_hash_enc())
            + enc_u64(self.wallclock)
    }

    pub fn encode(&self, out: &mut Vec<u8>)
        ensures
            final(out)@ == old(out)@ + self.enc(),
    {
        put_raw(out, self.from.as_slice());
        put_slot_hash(out, &self.full);
        put_slot_hashes(out, &self.incremental);
        put_u64(out, self.wallclock);
        assert(out@ =~= old(out)@ + self.enc());
    }
}

/// A set of slot offsets, as run lengths or as a raw bitmap, told apart by
/// the variant index.
#[derive(Debug)]
pub enum SlotsOffsets {
    RunLengthEncoding(Vec<u16>),
    RawOffsets(BitVec),
}

pub open spec fn enc_offsets(x: SlotsOffsets) -> Seq<u8> {
    match x {
        SlotsOffsets::RunLengthEncoding(v) => enc_u32(0) + enc_vec(v@, u16_enc()),
        SlotsOffsets::RawOffsets(b) => enc_u32(1) + b.enc(),
    }
}

fn put_offsets(out: &mut Vec<u8>, x: &SlotsOffsets)
    ensures
        final(out)@ == old(out)@ + enc_offsets(*x),
{
    match x {
        SlotsOffsets::RunLengthEncoding(v) => {
            put_u32(out, 0);
            put_u16s(out, v);
        },
        SlotsOffsets::RawOffsets(b) => {
            put_u32(out, 1);
            b.encode(out);
        },
    }
    assert(out@ =~= old(out)@ + enc_offsets(*x));
}

/// The slots of the fork a node last voted on, during a cluster restart.
#[derive(Debug)]
pub struct RestartLastVotedForkSlots {
    pub from: Pubkey,
    pub wallclock: u64,
    pub offsets: SlotsOffsets,
    pub last_voted_slot: Slot,
    pub last_voted_hash: Digest,
    pub shred_version: u16,
}

impl RestartLastVotedForkSlots {
    pub open spec fn enc(&self) -> Seq<u8> {
        self.from@ + enc_u64(self.wallclock) + enc_offsets(self.offsets) + enc_u64(
            self.last_voted_slot,
        ) + self.last_voted_hash@ + enc_u16(self.shred_version)
    }

    pub fn encode(&self, out: &mut Vec<u8>)
        ensures
            final(out)@ == old(out)@ + self.enc(),
    {
        put_raw(out, self.from.as_slice());
        put_u64(out, self.wallclock);
        put_offsets(out, &self.offsets);
        put_u64(out, self.last_voted_slot);
        put_raw(out, self.last_voted_hash.as_slice());
        put_u16(out, self.shred_version);
        assert(out@ =~= old(out)@ + self.enc());
    }
}

/// The heaviest fork a node saw, during a cluster restart.
#[derive(Debug)]
pub struct RestartHeaviestFork {
    pub from: Pubkey,
    pub wallclock: u64,
    pub last_slot: Slot,
    pub last_slot_hash: Digest,
    pub observed_stake: u64,
    pub shred_version: u16,
}

impl RestartHeaviestFork {
    pub open spec fn enc(&self) -> Seq<u8> {
        self.from@ + enc_u64(self.wallclock) + enc_u64(self.last_slot) + self.last_slot_hash@
            + enc_u64(self.observed_stake) + enc_u16(self.shred_version)
    }

    pub fn encode(&self, out: &mut Vec<u8>)
        ensures
            final(out)@ == old(out)@ + self.enc(),
    {
        put_raw(out, self.from.as_slice());
        put_u64(out, self.wallclock);
        put_u64(out, self.last_slot);
        put_raw(out, self.last_slot_hash.as_slice());
        put_u64(out, self.observed_stake);
        put_u16(out, self.shred_version);
        assert(out@ =~= old(out)@ + self.enc());
    }
}

/// A gossip record: one variant per kind of cluster metadata. The variant
/// index and the field order are the wire layout.
#[derive(Debug)]
pub enum GossipData {
    LegacyContactInfo(LegacyContactInfo),
    Vote(VoteIndex, Vote),
    LowestSlot(u8, LowestSlot),
    LegacySnapshotHashes(LegacySnapshotHashes),
    AccountsHashes(AccountsHashes),
    EpochSlots(EpochSlotsIndex, EpochSlots),
    LegacyVersion(LegacyVersion),
    Version(Version),
    NodeInstance(NodeInstance),
    DuplicateShred(DuplicateShredIndex, DuplicateShred),
    SnapshotHashes(SnapshotHashes),
    ContactInfo(ContactInfo),
    RestartLastVotedForkSlots(RestartLastVotedForkSlots),
    RestartHeaviestFork(RestartHeaviestFork),
}

impl GossipData {
    /// The node the record comes from.
    pub open spec fn origin(&self) -> Pubkey {
        match self {
            GossipData::LegacyContactInfo(c) => c.id,
            GossipData::Vote(_, v) => v.from,
            GossipData::LowestSlot(_, s) => s.from,
            GossipData::LegacySnapshotHashes(h) => h.from,
            GossipData::AccountsHashes(h) => h.from,
            GossipData::EpochSlots(_, e) => e.from,
            GossipData::LegacyVersion(v) => v.from,
            GossipData::Version(v) => v.from,
            GossipData::NodeInstance(n) => n.from,
            GossipData::DuplicateShred(_, d) => d.from,
            GossipData::SnapshotHashes(h) => h.from,
            GossipData::ContactInfo(c) => c.pubkey,
            GossipData::RestartLastVotedForkSlots(r) => r.from,
            GossipData::RestartHeaviestFork(r) => r.from,
        }
    }

    /// The wire form: the variant index as 32 bits, then the fields in order.
    pub open spec fn enc(&self) -> Seq<u8> {
        match self {
            GossipData::LegacyContactInfo(c) => enc_u32(0) + c.enc(),
            GossipData::Vote(i, v) => enc_u32(1) + enc_u8(*i) + v.enc(),
            GossipData::LowestSlot(i, s) => enc_u32(2) + enc_u8(*i) + s.enc(),
            GossipData::LegacySnapshotHashes(h) => enc_u32(3) + h.enc(),
            GossipData::AccountsHashes(h) => enc_u32(4) + h.enc(),
            GossipData::EpochSlots(i, e) => enc_u32(5) + enc_u8(*i) + e.enc(),
            GossipData::LegacyVersion(v) => enc_u32(6) + v.enc(),
            GossipData::Version(v) => enc_u32(7) + v.enc(),
            GossipData::NodeInstance(n) => enc_u32(8) + n.enc(),
            GossipData::DuplicateShred(i, d) => enc_u32(9) + enc_u16(*i) + d.enc(),
            GossipData::SnapshotHashes(h) => enc_u32(10) + h.enc(),
            GossipData::ContactInfo(c) => enc_u32(11) + c.enc(),
            GossipData::RestartLastVotedForkSlots(r) => enc_u32(12) + r.enc(),
            GossipData::RestartHeaviestFork(r) => enc_u32(13) + r.enc(),
        }
    }

    /// The node the record comes from.
    pub fn pubkey(&self) -> (r: Pubkey)
        ensures
            r == self.origin(),
    {
        match self {
            GossipData::LegacyContactInfo(c) => *c.pubkey(),
            GossipData::Vote(_, v) => v.from,
            GossipData::LowestSlot(_, s) => s.from,
            GossipData::LegacySnapshotHashes(h) => h.from,
            GossipData::AccountsHashes(h) => h.from,
            GossipData::EpochSlots(_, e) => e.from,
            GossipData::LegacyVersion(v) => v.from,
            GossipData::Version(v) => v.from,
            GossipData::NodeInstance(n) => n.from,
            GossipData::DuplicateShred(_, d) => d.from,
            GossipData::SnapshotHashes(h) => h.from,
            GossipData::ContactInfo(c) => *c.pubkey(),
            GossipData::RestartLastVotedForkSlots(r) => r.from,
            GossipData::RestartHeaviestFork(r) => r.from,
        }
    }

    /// Appends the wire form.
    pub fn encode(&self, out: &mut Vec<u8>)
        ensures
            final(out)@ == old(out)@ + self.enc(),
    {
        match self {
            GossipData::LegacyContactInfo(c) => {
                put_u32(out, 0);
                c.encode(out);
            },
            GossipData::Vote(i, v) => {
                put_u32(out, 1);
                put_u8(out, *i);
                v.encode(out);
            },
            GossipData::LowestSlot(i, s) => {
                put_u32(out, 2);
                put_u8(out, *i);
                s.encode(out);
            },
            GossipData::LegacySnapshotHashes(h) => {
                put_u32(out, 3);
                h.encode(out);
            },
            GossipData::AccountsHashes(h) => {
                put_u32(out, 4);
                h.encode(out);
            },
            GossipData::EpochSlots(i, e) => {
                put_u32(out, 5);
                put_u8(out, *i);
                e.encode(out);
            },
            GossipData::LegacyVersion(v) => {
                put_u32(out, 6);
                v.encode(out);
            },
            GossipData::Version(v) => {
                put_u32(out, 7);
                v.encode(out);
            },
            GossipData::NodeInstance(n) => {
                put_u32(out, 8);
                n.encode(out);
            },
            GossipData::DuplicateShred(i, d) => {
                put_u32(out, 9);
                put_u16(out, *i);
                d.encode(out);
            },
            GossipData::SnapshotHashes(h) => {
                put_u32(out, 10);
                h.encode(out);
            },
            GossipData::ContactInfo(c) => {
                put_u32(out, 11);
                c.encode(out);
            },
            GossipData::RestartLastVotedForkSlots(r) => {
                put_u32(out, 12);
                r.encode(out);
            },
            GossipData::RestartHeaviestFork(r) => {
                put_u32(out, 13);
                r.encode(out);
            },
        }
        assert(out@ =~= old(out)@ + self.enc());
    }

    /// The wire form, as a new vector.
    pub fn to_bytes(&self) -> (r: Vec<u8>)
        ensures
            r@ == self.enc(),
    {
        let mut out: Vec<u8> = Vec::new();
        self.encode(&mut out);
        assert(out@ =~= self.enc());
        out
    }
}

/// A signed record. It is trusted only where `signature` is valid, under the
/// record's origin key, over the wire form of `data` alone.
#[derive(Debug)]
pub struct GossipValue {
    pub signature: Signature,
    pub data: GossipData,
}

impl GossipValue {
    /// The signature is valid under the origin key over the record's wire form.
    pub open spec fn is_verified(&self) -> bool {
        signature_valid(self.signature@, self.data.origin()@, self.data.enc())
    }

    /// The wire form: the signature, then the record.
    pub open spec fn enc(&self) -> Seq<u8> {
        self.signature@ + self.data.enc()
    }

    fn new_unsigned(data: GossipData) -> (r: GossipValue)
        ensures
            r.data == data,
            r.signature@ == Seq::new(64, |i: int| 0u8),
    {
        let r = GossipValue { signature: [0u8; 64], data };
        assert(r.signature@ =~= Seq::new(64, |i: int| 0u8));
        r
    }

    /// `data`, signed with `keypair`.
    pub fn new_signed(data: GossipData, keypair: &Identity) -> (r: GossipValue)
        ensures
            r.data == data,
            r.signature@ == ed25519_signature(keypair.key_pair_bytes(), data.enc()),
            signature_valid(r.signature@, keypair.public_key()@, data.enc()),
    {
        let mut value = Self::new_unsigned(data);
        value.sign(keypair);
        value
    }

    /// Signs the record with `keypair`, replacing the signature.
    pub fn sign(&mut self, keypair: &Identity)
        ensures
            final(self).data == old(self).data,
            final(self).signature@ == ed25519_signature(keypair.key_pair_bytes(), old(self).data.enc()),
            signature_valid(final(self).signature@, keypair.public_key()@, old(self).data.enc()),
    {
        let bytes = self.signable_data();
        let signature = keypair.sign_message(bytes.as_slice());
        self.set_signature(signature);
    }

    /// The origin key of the record.
    pub fn pubkey(&self) -> (r: Pubkey)
        ensures
            r == self.data.origin(),
    {
        self.data.pubkey()
    }

    /// The bytes that the signature covers: the record's wire form.
    pub fn signable_data(&self) -> (r: Vec<u8>)
        ensures
            r@ == self.data.enc(),
    {
        self.data.to_bytes()
    }

    pub fn get_signature(&self) -> (r: Signature)
        ensures
            r == self.signature,
    {
        self.signature
    }

    pub fn set_signature(&mut self, signature: Signature)
        ensures
            final(self).signature == signature,
            final(self).data == old(self).data,
    {
        self.signature = signature;
    }

    /// Whether the signature is valid under the record's origin key. A
    /// mismatch gives `false`, never an error.
    pub fn verify(&self) -> (r: bool)
        ensures
            r == self.is_verified(),
    {
        let signature = self.get_signature();
        let pubkey = self.pubkey();
        let bytes = self.signable_data();
        verify_signature(&signature, &pubkey, bytes.as_slice())
    }

    /// Appends the wire form.
    pub fn encode(&self, out: &mut Vec<u8>)
        ensures
            final(out)@ == old(out)@ + self.enc(),
    {
        put_raw(out, self.signature.as_slice());
        self.data.encode(out);
        assert(out@ =~= old(out)@ + self.enc());
    }
}

/// A record signed by the key pair of its own origin verifies.
pub proof fn lemma_signed_by_origin_verifies(data: GossipData, keypair: Identity, value: GossipValue)
    requires
        value.data == data,
        signature_valid(value.signature@, keypair.public_key()@, data.enc()),
        data.origin() == keypair.public_key(),
    ensures
        value.is_verified(),
{
}

} // verus!
