use vstd::prelude::*;
use vstd::utf8::encode_utf8;

verus! {

/// What SHA-256 returns on a byte sequence.
pub uninterp spec fn sha256_of(bytes: Seq<u8>) -> Seq<u8>;

/// Relies on `sha2::Sha256` through `digest::Digest::digest`: the 32-byte
/// SHA-256 digest of `bytes`, which depends on those bytes alone.
#[verifier::external_body]
fn sha256(bytes: &[u8]) -> (r: [u8; 32])
    ensures
        r@ == sha256_of(bytes@),
{
    <sha2::Sha256 as sha2::Digest>::digest(bytes).into()
}

/// Relies on `std::time::SystemTime::elapsed`, called on the Unix epoch: the
/// whole seconds and the nanoseconds within the last second since then, or
/// `None` when the clock reads earlier. `Duration::subsec_nanos` is documented
/// to stay below one billion.
#[verifier::external_body]
fn time_since_epoch() -> (r: Option<(u64, u32)>)
    ensures
        r matches Some(t) ==> t.1 < 1_000_000_000,
{
    std::time::UNIX_EPOCH.elapsed().ok().map(|d| (d.as_secs(), d.subsec_nanos()))
}

/// The `width` low bytes of `x`, most significant first.
pub open spec fn be_bytes(x: nat, width: nat) -> Seq<u8>
    decreases width,
{
    if width == 0 {
        Seq::empty()
    } else {
        be_bytes(x / 256, (width - 1) as nat).push((x % 256) as u8)
    }
}

/// The abstract content of a block.
pub struct BlockView {
    pub prev_hash: Seq<u8>,
    pub index: u32,
    pub timestamp: u128,
    pub data: Seq<char>,
    pub hash: Seq<u8>,
}

/// The bytes that a block's hash is computed over.
pub open spec fn hash_input(prev_hash: Seq<u8>, index: u32, timestamp: u128, data: Seq<char>) -> Seq<u8> {
    prev_hash + be_bytes(index as nat, 4) + be_bytes(timestamp as nat, 16) + encode_utf8(data)
}

/// The hash that a block with these contents must carry.
pub open spec fn block_hash(b: BlockView) -> Seq<u8> {
    sha256_of(hash_input(b.prev_hash, b.index, b.timestamp, b.data))
}

/// `cur` continues `prev`: next index, linked hash, and a hash that matches its contents.
pub open spec fn links_to(cur: BlockView, prev: BlockView) -> bool {
    &&& cur.index as int == prev.index as int + 1
    &&& cur.prev_hash == prev.hash
    &&& cur.hash == block_hash(cur)
}

/// The text stored in the first block of every chain.
pub const GENESIS_DATA: &'static str = "genesis data";

/// The first block of every chain.
pub open spec fn genesis_view() -> BlockView {
    let prev_hash = Seq::new(32, |i: int| 0u8);
    let data = GENESIS_DATA@;
    BlockView {
        prev_hash,
        index: 0,
        timestamp: 0,
        data,
        hash: sha256_of(hash_input(prev_hash, 0, 0, data)),
    }
}

/// An immutable, hash-linked ledger entry.
#[derive(Clone, Debug)]
pub struct Block {
    pub prev_hash: [u8; 32],
    pub index: u32,
    pub timestamp: u128,
    pub data: String,
    pub hash: [u8; 32],
}

impl View for Block {
    type V = BlockView;

    open spec fn view(&self) -> BlockView {
        BlockView {
            prev_hash: self.prev_hash@,
            index: self.index,
            timestamp: self.timestamp,
            data: self.data@,
            hash: self.hash@,
        }
    }
}

impl PartialEq for Block {
    fn eq(&self, other: &Block) -> (r: bool) {
        self.same_as(other)
    }
}

impl vstd::std_specs::cmp::PartialEqSpecImpl for Block {
    open spec fn obeys_eq_spec() -> bool {
        true
    }

    open spec fn eq_spec(&self, other: &Block) -> bool {
        self@ == other@
    }
}

/// Whether two digests hold the same bytes.
pub fn digests_equal(a: &[u8; 32], b: &[u8; 32]) -> (r: bool)
    ensures
        r == (a@ == b@),
{
    let mut i: usize = 0;
    while i < 32
        invariant
            0 <= i <= 32,
            a@.len() == 32,
            b@.len() == 32,
            forall|j: int| 0 <= j < i ==> a@[j] == b@[j],
        decreases 32 - i,
    {
        if a[i] != b[i] {
            return false;
        }
        i = i + 1;
    }
    assert(a@ =~= b@);
    true
}

/// Appends `src` to `out`.
fn append_bytes(out: &mut Vec<u8>, src: &[u8])
    ensures
        final(out)@ == old(out)@ + src@,
{
    let mut i: usize = 0;
    while i < src.len()
        invariant
            0 <= i <= src@.len(),
            out@ == old(out)@ + src@.subrange(0, i as int),
        decreases src@.len() - i,
    {
        out.push(src[i]);
        i = i + 1;
        assert(out@ =~= old(out)@ + src@.subrange(0, i as int));
    }
    assert(src@.subrange(0, i as int) =~= src@);
}

/// Appends the `width` low bytes of `x` to `out`, most significant first.
fn append_be_bytes(out: &mut Vec<u8>, x: u128, width: usize)
    requires
        width <= 16,
    ensures
        final(out)@ == old(out)@ + be_bytes(x as nat, width as nat),
{
    let mut digits: Vec<u8> = Vec::new();
    let mut v: u128 = x;
    let mut i: usize = 0;
    while i < width
        invariant
            i <= width,
            be_bytes(x as nat, width as nat) == be_bytes(v as nat, (width - i) as nat) + digits@,
        decreases width - i,
    {
        let ghost old_digits = digits@;
        digits.insert(0, (v % 256) as u8);
        assert(be_bytes(v as nat, (width - i) as nat) == be_bytes((v / 256) as nat, (width - i - 1) as nat).push((v % 256) as u8));
        assert(be_bytes(v as nat, (width - i) as nat) + old_digits =~= be_bytes((v / 256) as nat, (width - i - 1) as nat) + digits@);
        v = v / 256;
        i = i + 1;
    }
    assert(be_bytes(v as nat, 0) + digits@ =~= digits@);
    append_bytes(out, digits.as_slice());
}

impl Block {
    /// The hash that a block with these contents must carry.
    pub fn calculate_hash(block: &Block) -> (r: [u8; 32])
        ensures
            r@ == block_hash(block@),
    {
        let mut bytes: Vec<u8> = Vec::new();
        append_bytes(&mut bytes, block.prev_hash.as_slice());
        append_be_bytes(&mut bytes, block.index as u128, 4);
        append_be_bytes(&mut bytes, block.timestamp, 16);
        append_bytes(&mut bytes, block.data.as_str().as_bytes());
        assert(bytes@ =~= hash_input(block.prev_hash@, block.index, block.timestamp, block.data@));
        sha256(bytes.as_slice())
    }

    /// Builds a block and stores the hash of its contents.
    pub fn new(prev_hash: [u8; 32], index: u32, timestamp: u128, data: String) -> (r: Block)
        ensures
            r@.prev_hash == prev_hash@,
            r.index == index,
            r.timestamp == timestamp,
            r@.data == data@,
            r@.hash == block_hash(r@),
    {
        let mut block = Block { prev_hash, index, timestamp, data, hash: [0u8; 32] };
        block.hash = Self::calculate_hash(&block);
        block
    }

    /// A block that follows `prev_block`, stamped with the current time in
    /// milliseconds since the Unix epoch (zero if the clock reads earlier).
    pub fn generate_block(data: String, prev_block: &Block) -> (r: Block)
        requires
            prev_block.index < u32::MAX,
        ensures
            links_to(r@, prev_block@),
            r@.data == data@,
    {
        let timestamp: u128 = match time_since_epoch() {
            Some((secs, nanos)) => secs as u128 * 1000 + nanos as u128 / 1_000_000,
            None => 0,
        };
        Self::new(prev_block.hash, prev_block.index + 1, timestamp, data)
    }

    /// Whether this block continues `prev_block`.
    pub fn validate_block(&self, prev_block: &Block) -> (r: bool)
        ensures
            r == links_to(self@, prev_block@),
    {
        prev_block.index < u32::MAX
            && self.index == prev_block.index + 1
            && digests_equal(&self.prev_hash, &prev_block.hash)
            && digests_equal(&self.hash, &Self::calculate_hash(self))
    }

    /// A copy with the same contents.
    pub fn copied(&self) -> (r: Block)
        ensures
            r@ == self@,
    {
        Block {
            prev_hash: self.prev_hash,
            index: self.index,
            timestamp: self.timestamp,
            data: self.data.clone(),
            hash: self.hash,
        }
    }

    /// Whether two blocks hold the same contents.
    pub fn same_as(&self, other: &Block) -> (r: bool)
        ensures
            r == (self@ == other@),
    {
        digests_equal(&self.prev_hash, &other.prev_hash)
            && self.index == other.index
            && self.timestamp == other.timestamp
            && self.data == other.data
            && digests_equal(&self.hash, &other.hash)
    }

    /// The first block of every chain.
    pub fn genesis() -> (r: Block)
        ensures
            r@ == genesis_view(),
    {
        let block = Self::new([0u8; 32], 0, 0, GENESIS_DATA.to_owned());
        assert(block@.prev_hash =~= genesis_view().prev_hash);
        block
    }
}

} // verus!
