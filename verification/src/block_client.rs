use vstd::prelude::*;
use vstd::arithmetic::div_mod::lemma_add_mod_noop;
use vstd::arithmetic::div_mod::lemma_small_mod;

verus! {

/// Where a cycler over `n` items stands after one more call, starting at `pos`.
pub open spec fn next_position(pos: nat, n: nat) -> nat {
    (pos + 1) % n
}

/// Where a cycler over `n` items stands after `k` calls, starting at `pos`.
pub open spec fn position_after(pos: nat, k: nat, n: nat) -> nat
    decreases k,
{
    if k == 0 {
        pos
    } else {
        next_position(position_after(pos, (k - 1) as nat, n), n)
    }
}

/// Takes any values and cycles through them.
pub struct Cycler<T> {
    inner: Vec<T>,
    ptr: usize,
    max: usize,
}

impl<T> Cycler<T> {
    /// The values cycled through, in order.
    pub closed spec fn items(&self) -> Seq<T> {
        self.inner@
    }

    /// The index of the value that the next call of `get` hands out.
    pub closed spec fn position(&self) -> nat {
        self.ptr as nat
    }

    /// The cycler holds at least one value and points at one of them.
    pub closed spec fn wf(&self) -> bool {
        &&& self.inner@.len() > 0
        &&& self.max == self.inner@.len() - 1
        &&& self.ptr <= self.max
    }

    /// A well-formed cycler points inside its non-empty list of values.
    pub proof fn lemma_wf(&self)
        requires
            self.wf(),
        ensures
            self.items().len() > 0,
            self.position() < self.items().len(),
    {
    }

    /// Makes a cycler that starts at the first of `inner`.
    pub fn new(inner: Vec<T>) -> (c: Self)
        requires
            inner@.len() > 0,
        ensures
            c.wf(),
            c.items() == inner@,
            c.position() == 0,
    {
        let max = inner.len() - 1;
        Cycler { inner, ptr: 0, max }
    }

    /// Hands out the current value and moves on to the next one, starting
    /// over after the last.
    pub fn get(&mut self) -> (r: &T)
        requires
            old(self).wf(),
        ensures
            final(self).wf(),
            final(self).items() == old(self).items(),
            *r == old(self).items()[old(self).position() as int],
            final(self).position() == next_position(old(self).position(), old(self).items().len()),
    {
        let idx = self.ptr;
        if self.ptr >= self.max {
            self.ptr = 0;
        } else {
            self.ptr = self.ptr + 1;
        }
        proof {
            let n = self.inner@.len() as int;
            if idx < self.max {
                lemma_small_mod((idx + 1) as nat, n as nat);
            } else {
                assert((idx + 1) % n == 0) by {
                    vstd::arithmetic::div_mod::lemma_mod_self_0(n);
                }
            }
        }
        &self.inner[idx]
    }
}

/// Round robin: `k` calls from position `pos` leave a cycler over `n`
/// values at `(pos + k) % n`.
pub proof fn lemma_position_after(pos: nat, k: nat, n: nat)
    requires
        n > 0,
        pos < n,
    ensures
        position_after(pos, k, n) == (pos + k) % n,
    decreases k,
{
    if k == 0 {
        lemma_small_mod(pos, n);
    } else {
        lemma_position_after(pos, (k - 1) as nat, n);
        let prev = position_after(pos, (k - 1) as nat, n);
        assert(prev == ((pos + k - 1) as nat) % n);
        lemma_add_mod_noop(pos + k - 1, 1, n as int);
        if n == 1 {
            assert((pos + k) % n == 0);
            assert(((prev + 1) % n) == 0);
        } else {
            lemma_small_mod(1, n);
            assert(1nat % n == 1);
        }
        assert(((prev + 1) % n) == (pos + k) % n);
    }
}

/// A cycler over `n` values is back where it started after `n` calls.
pub proof fn lemma_cycle_period(pos: nat, n: nat)
    requires
        n > 0,
        pos < n,
    ensures
        position_after(pos, n, n) == pos,
{
    lemma_position_after(pos, n, n);
    vstd::arithmetic::div_mod::lemma_mod_add_multiples_vanish(pos as int, n as int);
    lemma_small_mod(pos, n);
}

/// Every value is handed out within `n` consecutive calls of a cycler over
/// `n` values, whatever its position.
pub proof fn lemma_cycle_visits_all(pos: nat, j: nat, n: nat)
    requires
        n > 0,
        pos < n,
        j < n,
    ensures
        exists|k: nat| k < n && #[trigger] position_after(pos, k, n) == j,
{
    let k: nat = if j >= pos { (j - pos) as nat } else { (j + n - pos) as nat };
    lemma_position_after(pos, k, n);
    if j >= pos {
        lemma_small_mod(j, n);
    } else {
        vstd::arithmetic::div_mod::lemma_mod_add_multiples_vanish(j as int, n as int);
        lemma_small_mod(j, n);
        assert(pos + k == n + j);
    }
    assert(position_after(pos, k, n) == j);
}

/// A 256-bit unsigned integer as four 64-bit limbs, least significant first.
#[derive(Clone, Copy, Debug, PartialEq, Eq)]
pub struct Word256 {
    pub limbs: [u64; 4],
}

impl Word256 {
    /// The number that the limbs stand for.
    pub open spec fn value(&self) -> nat {
        (self.limbs[0] + self.limbs[1] * 0x1_0000_0000_0000_0000 + self.limbs[2]
            * 0x1_0000_0000_0000_0000_0000_0000_0000_0000 + self.limbs[3]
            * 0x1_0000_0000_0000_0000_0000_0000_0000_0000_0000_0000_0000_0000) as nat
    }

    /// The number fits in 64 bits: every limb but the lowest is zero.
    pub open spec fn fits_u64(&self) -> bool {
        self.limbs[1] == 0 && self.limbs[2] == 0 && self.limbs[3] == 0
    }

    /// Whether the number fits in 64 bits.
    pub fn fits_word(&self) -> (r: bool)
        ensures
            r == self.fits_u64(),
            r <==> self.value() <= u64::MAX,
    {
        self.limbs[1] == 0 && self.limbs[2] == 0 && self.limbs[3] == 0
    }

    /// The number as a `u64`; it must fit.
    pub fn as_u64(&self) -> (r: u64)
        requires
            self.fits_u64(),
        ensures
            r == self.value(),
            r == self.limbs[0],
    {
        self.limbs[0]
    }

    /// The 256-bit word holding `v`.
    pub fn from_u128(v: u128) -> (w: Word256)
        ensures
            w.value() == v,
    {
        let lo = (v % 0x1_0000_0000_0000_0000) as u64;
        let hi = (v / 0x1_0000_0000_0000_0000) as u64;
        Word256 { limbs: [lo, hi, 0, 0] }
    }
}

/// The value of bytes read as a big-endian unsigned number.
pub open spec fn big_endian_value(bytes: Seq<u8>) -> nat
    decreases bytes.len(),
{
    if bytes.len() == 0 {
        0
    } else {
        (big_endian_value(bytes.drop_last()) * 256 + bytes.last()) as nat
    }
}

proof fn lemma_big_endian_bound(bytes: Seq<u8>)
    ensures
        big_endian_value(bytes) < vstd::arithmetic::power::pow(256, bytes.len()),
    decreases bytes.len(),
{
    vstd::arithmetic::power::lemma_pow_positive(256, bytes.len());
    if bytes.len() > 0 {
        lemma_big_endian_bound(bytes.drop_last());
        let p = vstd::arithmetic::power::pow(256, (bytes.len() - 1) as nat);
        vstd::arithmetic::power::lemma_pow_adds(256, (bytes.len() - 1) as nat, 1);
        vstd::arithmetic::power::lemma_pow1(256);
        let v = big_endian_value(bytes.drop_last());
        assert(v * 256 + bytes.last() < p * 256) by (nonlinear_arith)
            requires
                v < p,
                bytes.last() < 256,
        ;
    }
}

/// The 8 bytes of a block nonce read as a big-endian number: the lowest
/// 8 bytes of the hash, which for an 8-byte hash are all of them.
pub fn to_low_u64_be(bytes: &[u8; 8]) -> (r: u64)
    ensures
        r == big_endian_value(bytes@),
{
    let mut v: u64 = 0;
    let mut i: usize = 0;
    proof {
        vstd::arithmetic::power::lemma_pow0(256);
        assert(bytes@.take(0) =~= Seq::<u8>::empty());
    }
    while i < 8
        invariant
            i <= 8,
            v == big_endian_value(bytes@.take(i as int)),
            v < vstd::arithmetic::power::pow(256, i as nat),
        decreases 8 - i,
    {
        proof {
            assert(bytes@.take(i + 1).drop_last() =~= bytes@.take(i as int));
            vstd::arithmetic::power::lemma_pow_adds(256, i as nat, 1);
            vstd::arithmetic::power::lemma_pow1(256);
            lemma_big_endian_bound(bytes@.take(i + 1));
            assert(vstd::arithmetic::power::pow(256, 8) == 0x1_0000_0000_0000_0000) by {
                reveal_with_fuel(vstd::arithmetic::power::pow, 9);
            }
            vstd::arithmetic::power::lemma_pow_increases(256, (i + 1) as nat, 8);
        }
        v = v * 256 + bytes[i] as u64;
        i = i + 1;
    }
    assert(bytes@.take(8) =~= bytes@);
    v
}

/// The value of a 256-bit word weighs its limbs by 2^0, 2^64, 2^128 and
/// 2^192; a word fits in 64 bits exactly when its value does, and then its
/// value is its lowest limb.
pub proof fn lemma_word_value(w: Word256)
    ensures
        w.value() == w.limbs[0] as int + w.limbs[1] as int * 0x1_0000_0000_0000_0000
            + w.limbs[2] as int * 0x1_0000_0000_0000_0000_0000_0000_0000_0000 + w.limbs[3] as int
            * 0x1_0000_0000_0000_0000_0000_0000_0000_0000_0000_0000_0000_0000,
        w.fits_u64() <==> w.value() <= u64::MAX,
        w.fits_u64() ==> w.value() == w.limbs[0],
        w.fits_u64() <==> (w.limbs[1] == 0 && w.limbs[2] == 0 && w.limbs[3] == 0),
{
}

/// Eight bytes read big-endian: the first byte is the most significant.
pub proof fn lemma_big_endian_8(bytes: Seq<u8>)
    requires
        bytes.len() == 8,
    ensures
        big_endian_value(bytes) == bytes[0] as int * 0x100_0000_0000_0000 + bytes[1] as int
            * 0x1_0000_0000_0000 + bytes[2] as int * 0x100_0000_0000 + bytes[3] as int
            * 0x1_0000_0000 + bytes[4] as int * 0x100_0000 + bytes[5] as int * 0x1_0000
            + bytes[6] as int * 0x100 + bytes[7] as int,
{
    assert(big_endian_value(bytes.take(0)) == 0);
    assert forall|j: int| 0 < j <= 8 implies big_endian_value(#[trigger] bytes.take(j))
        == big_endian_value(bytes.take(j - 1)) * 256 + bytes[j - 1] by {
        assert(bytes.take(j).drop_last() =~= bytes.take(j - 1));
    }
    assert(bytes.take(8) =~= bytes);
    assert(big_endian_value(bytes.take(1)) == bytes[0]);
    assert(big_endian_value(bytes.take(2)) == bytes[0] * 0x100 + bytes[1]);
    assert(big_endian_value(bytes.take(3)) == bytes[0] * 0x1_0000 + bytes[1] * 0x100 + bytes[2]);
    assert(big_endian_value(bytes.take(4)) == bytes[0] * 0x100_0000 + bytes[1] * 0x1_0000
        + bytes[2] * 0x100 + bytes[3]);
    assert(big_endian_value(bytes.take(5)) == bytes[0] * 0x1_0000_0000 + bytes[1] * 0x100_0000
        + bytes[2] * 0x1_0000 + bytes[3] * 0x100 + bytes[4]);
    assert(big_endian_value(bytes.take(6)) == bytes[0] * 0x100_0000_0000 + bytes[1]
        * 0x1_0000_0000 + bytes[2] * 0x100_0000 + bytes[3] * 0x1_0000 + bytes[4] * 0x100
        + bytes[5]);
    assert(big_endian_value(bytes.take(7)) == bytes[0] * 0x1_0000_0000_0000 + bytes[1]
        * 0x100_0000_0000 + bytes[2] * 0x1_0000_0000 + bytes[3] * 0x100_0000 + bytes[4]
        * 0x1_0000 + bytes[5] * 0x100 + bytes[6]);
}

/// A block as the JSON-RPC provider reports it, with the fields that the
/// node reads. Hashes, addresses and the bloom filter are raw bytes.
#[derive(Clone, Debug, PartialEq, Eq)]
pub struct RpcBlock {
    pub hash: Option<[u8; 32]>,
    pub parent_hash: [u8; 32],
    pub uncles_hash: [u8; 32],
    pub author: Option<[u8; 20]>,
    pub state_root: [u8; 32],
    pub transactions_root: [u8; 32],
    pub receipts_root: [u8; 32],
    pub number: Option<u64>,
    pub gas_used: Word256,
    pub gas_limit: Word256,
    pub extra_data: Vec<u8>,
    pub logs_bloom: Option<[u8; 256]>,
    pub timestamp: Word256,
    pub difficulty: Word256,
    pub mix_hash: Option<[u8; 32]>,
    pub nonce: Option<[u8; 8]>,
    pub base_fee_per_gas: Option<Word256>,
}

impl RpcBlock {
    /// Every field that a header needs is present and every quantity that a
    /// header holds in 64 bits fits there.
    pub open spec fn header_complete(&self) -> bool {
        &&& self.author is Some
        &&& self.logs_bloom is Some
        &&& self.number is Some
        &&& self.mix_hash is Some
        &&& self.nonce is Some
        &&& self.gas_limit.fits_u64()
        &&& self.gas_used.fits_u64()
        &&& self.timestamp.fits_u64()
        &&& (self.base_fee_per_gas matches Some(fee) ==> fee.fits_u64())
    }

    /// Whether a header can be built from this block.
    pub fn is_header_complete(&self) -> (r: bool)
        ensures
            r == self.header_complete(),
    {
        self.author.is_some() && self.logs_bloom.is_some() && self.number.is_some()
            && self.mix_hash.is_some() && self.nonce.is_some() && self.gas_limit.fits_word()
            && self.gas_used.fits_word() && self.timestamp.fits_word() && match &self.base_fee_per_gas {
            Some(fee) => fee.fits_word(),
            None => true,
        }
    }
}

/// A header can be built exactly when the author, bloom, number, mix hash
/// and nonce are present and gas limit, gas used, timestamp and any base fee
/// have nothing above their lowest limb.
pub proof fn lemma_header_complete(b: RpcBlock)
    ensures
        b.header_complete() <==> (b.author is Some && b.logs_bloom is Some && b.number is Some
            && b.mix_hash is Some && b.nonce is Some && b.gas_limit.limbs[1] == 0
            && b.gas_limit.limbs[2] == 0 && b.gas_limit.limbs[3] == 0 && b.gas_used.limbs[1] == 0
            && b.gas_used.limbs[2] == 0 && b.gas_used.limbs[3] == 0 && b.timestamp.limbs[1] == 0
            && b.timestamp.limbs[2] == 0 && b.timestamp.limbs[3] == 0 && (b.base_fee_per_gas
            matches Some(f) ==> f.limbs[1] == 0 && f.limbs[2] == 0 && f.limbs[3] == 0)),
{
}

/// A block header in the node's own representation.
#[derive(Clone, Debug, PartialEq, Eq)]
pub struct Header {
    pub parent_hash: [u8; 32],
    pub ommers_hash: [u8; 32],
    pub beneficiary: [u8; 20],
    pub state_root: [u8; 32],
    pub transactions_root: [u8; 32],
    pub receipts_root: [u8; 32],
    pub logs_bloom: [u8; 256],
    pub difficulty: Word256,
    pub number: u64,
    pub gas_limit: u64,
    pub gas_used: u64,
    pub timestamp: u64,
    pub mix_hash: [u8; 32],
    pub nonce: u64,
    pub base_fee_per_gas: Option<u64>,
    pub extra_data: Vec<u8>,
}

/// `header` is the header of the provider's `block`, field by field.
pub open spec fn header_of(header: Header, block: RpcBlock) -> bool {
    &&& header.parent_hash == block.parent_hash
    &&& header.ommers_hash == block.uncles_hash
    &&& block.author == Some(header.beneficiary)
    &&& header.state_root == block.state_root
    &&& header.transactions_root == block.transactions_root
    &&& header.receipts_root == block.receipts_root
    &&& block.logs_bloom == Some(header.logs_bloom)
    &&& header.difficulty == block.difficulty
    &&& block.number == Some(header.number)
    &&& header.gas_limit == block.gas_limit.value()
    &&& header.gas_used == block.gas_used.value()
    &&& header.timestamp == block.timestamp.value()
    &&& block.mix_hash == Some(header.mix_hash)
    &&& (block.nonce matches Some(n) && header.nonce == big_endian_value(n@))
    &&& (match block.base_fee_per_gas {
        Some(fee) => header.base_fee_per_gas == Some(fee.value() as u64),
        None => header.base_fee_per_gas is None,
    })
    &&& header.extra_data@ == block.extra_data@
}

/// The body of a block as the peer-to-peer network delivers it.
#[derive(Clone, Debug, PartialEq, Eq)]
pub struct BlockBody<T> {
    pub transactions: Vec<T>,
    pub ommers: Vec<Header>,
}

/// A full block: a header with the body's transactions and ommers.
#[derive(Clone, Debug, PartialEq, Eq)]
pub struct Block<T> {
    pub header: Header,
    pub body: Vec<T>,
    pub ommers: Vec<Header>,
}

/// The chain's head and its finalized and safe block numbers.
#[derive(Clone, Copy, Debug, PartialEq, Eq)]
pub struct ChainInfo {
    pub best_hash: [u8; 32],
    pub best_number: u64,
    pub last_finalized: Option<u64>,
    pub safe_finalized: Option<u64>,
}

/// The provider could not answer for a block.
#[derive(Clone, Copy, Debug, PartialEq, Eq)]
pub enum ProviderError {
    /// The block with this number (0 where none was asked for) is unavailable.
    BlockNumber(u64),
    /// The block with this hash is unavailable.
    BlockHash([u8; 32]),
}

/// Why a lookup of chain data failed.
#[derive(Clone, Copy, Debug, PartialEq, Eq)]
pub enum LookupError {
    Provider(ProviderError),
    /// A read of chain data failed with this code.
    DatabaseRead(i32),
}

/// The code reported when the chain's head, safe or finalized block is
/// unavailable.
pub const CHAIN_INFO_READ_CODE: i32 = 69;

/// A request to the network for the bodies of the blocks with these hashes;
/// the answer goes to `R`.
#[derive(Debug)]
pub enum FetcherReq<R> {
    BlockBodyReq((R, Vec<[u8; 32]>)),
}

/// What a failed provider call is reported as.
pub open spec fn unavailable() -> LookupError {
    LookupError::Provider(ProviderError::BlockNumber(0))
}

/// A header built from a complete block carries the block's own hashes,
/// roots, addresses and bloom unchanged, its quantities as their lowest
/// limbs, its nonce bytes read big-endian and its extra data unchanged.
pub proof fn lemma_header_of(h: Header, b: RpcBlock)
    requires
        header_of(h, b),
        b.header_complete(),
    ensures
        h.parent_hash == b.parent_hash,
        h.ommers_hash == b.uncles_hash,
        b.author == Some(h.beneficiary),
        h.state_root == b.state_root,
        h.transactions_root == b.transactions_root,
        h.receipts_root == b.receipts_root,
        b.logs_bloom == Some(h.logs_bloom),
        h.difficulty == b.difficulty,
        b.number == Some(h.number),
        h.gas_limit == b.gas_limit.limbs[0],
        h.gas_used == b.gas_used.limbs[0],
        h.timestamp == b.timestamp.limbs[0],
        b.mix_hash == Some(h.mix_hash),
        b.nonce matches Some(n) && h.nonce == n[0] as int * 0x100_0000_0000_0000 + n[1] as int
            * 0x1_0000_0000_0000 + n[2] as int * 0x100_0000_0000 + n[3] as int * 0x1_0000_0000
            + n[4] as int * 0x100_0000 + n[5] as int * 0x1_0000 + n[6] as int * 0x100
            + n[7] as int,
        b.base_fee_per_gas matches Some(fee) ==> h.base_fee_per_gas == Some(fee.limbs[0]),
        b.base_fee_per_gas is None ==> h.base_fee_per_gas is None,
        h.extra_data@ == b.extra_data@,
{
    lemma_word_value(b.gas_limit);
    lemma_word_value(b.gas_used);
    lemma_word_value(b.timestamp);
    if let Some(fee) = b.base_fee_per_gas {
        lemma_word_value(fee);
    }
    let n = b.nonce->0;
    lemma_big_endian_8(n@);
}

/// A failed provider call is reported as the block numbered zero being
/// unavailable.
pub proof fn lemma_unavailable()
    ensures
        unavailable() == LookupError::Provider(ProviderError::BlockNumber(0)),
{
}

/// Serves chain data from JSON-RPC providers `P`, used in turn, and asks the
/// network for block bodies through `F`.
pub struct BlockClient<P, F> {
    provider: Cycler<P>,
    fetcher: F,
}

impl<P, F> BlockClient<P, F> {
    /// The rotation of providers.
    pub closed spec fn providers(&self) -> Cycler<P> {
        self.provider
    }

    /// Where body requests go.
    pub closed spec fn body_fetcher(&self) -> F {
        self.fetcher
    }

    /// The client's provider rotation is well formed.
    pub open spec fn wf(&self) -> bool {
        self.providers().wf()
    }

    /// A client over the providers of `inner` that sends body requests to
    /// `fetcher`.
    pub fn new(inner: Cycler<P>, fetcher: F) -> (c: Self)
        ensures
            c.providers() == inner,
            c.body_fetcher() == fetcher,
    {
        BlockClient { provider: inner, fetcher }
    }

    /// The provider to ask next; the rotation moves on by one.
    pub fn next_provider(&mut self) -> (p: &P)
        requires
            old(self).wf(),
        ensures
            final(self).wf(),
            *p == old(self).providers().items()[old(self).providers().position() as int],
            final(self).providers().items() == old(self).providers().items(),
            final(self).providers().position() == next_position(
                old(self).providers().position(),
                old(self).providers().items().len(),
            ),
            final(self).body_fetcher() == old(self).body_fetcher(),
    {
        self.provider.get()
    }

    /// Where body requests go.
    pub fn fetcher(&self) -> (f: &F)
        ensures
            *f == self.body_fetcher(),
    {
        &self.fetcher
    }

    /// A provider's answer for a block, with a failed call reported as an
    /// unavailable block.
    pub fn get_block(&self, fetched: Result<Option<RpcBlock>, ()>) -> (r: Result<
        Option<RpcBlock>,
        LookupError,
    >)
        ensures
            r == (match fetched {
                Ok(found) => Ok(found),
                Err(_) => Err(unavailable()),
            }),
    {
        match fetched {
            Ok(found) => Ok(found),
            Err(_) => Err(LookupError::Provider(ProviderError::BlockNumber(0))),
        }
    }

    /// The header of a block that the provider reported in full.
    pub fn build_header(&self, block: RpcBlock) -> (r: Result<Header, LookupError>)
        requires
            block.header_complete(),
        ensures
            r matches Ok(h) && header_of(h, block),
            r matches Ok(h) && h.parent_hash == block.parent_hash && h.ommers_hash
                == block.uncles_hash && Some(h.beneficiary) == block.author && h.state_root
                == block.state_root && h.transactions_root == block.transactions_root
                && h.receipts_root == block.receipts_root && Some(h.logs_bloom) == block.logs_bloom
                && h.difficulty == block.difficulty && Some(h.number) == block.number && h.gas_limit
                == block.gas_limit.limbs[0] && h.gas_used == block.gas_used.limbs[0] && h.timestamp
                == block.timestamp.limbs[0] && Some(h.mix_hash) == block.mix_hash
                && h.extra_data@ == block.extra_data@,
    {
        let ghost b = block;
        let base_fee_per_gas = match &block.base_fee_per_gas {
            Some(fee) => Some(fee.as_u64()),
            None => None,
        };
        let nonce = match &block.nonce {
            Some(n) => to_low_u64_be(n),
            None => 0,
        };
        let gas_limit = block.gas_limit.as_u64();
        let gas_used = block.gas_used.as_u64();
        let timestamp = block.timestamp.as_u64();
        let h = Header {
            parent_hash: block.parent_hash,
            ommers_hash: block.uncles_hash,
            beneficiary: block.author.unwrap(),
            state_root: block.state_root,
            transactions_root: block.transactions_root,
            receipts_root: block.receipts_root,
            logs_bloom: block.logs_bloom.unwrap(),
            difficulty: block.difficulty,
            number: block.number.unwrap(),
            gas_limit,
            gas_used,
            timestamp,
            mix_hash: block.mix_hash.unwrap(),
            nonce,
            base_fee_per_gas,
            extra_data: block.extra_data,
        };
        assert(header_of(h, b));
        proof {
            lemma_header_of(h, b);
        }
        Ok(h)
    }

    /// The hash of the block with the given number, from the provider's
    /// answer for that number.
    pub fn block_hash(&self, number: Word256, fetched: Result<Option<RpcBlock>, ()>) -> (r: Result<
        Option<[u8; 32]>,
        LookupError,
    >)
        requires
            number.fits_u64(),
            fetched matches Ok(Some(b)) ==> b.hash is Some,
        ensures
            r == (match fetched {
                Ok(Some(b)) => Ok(b.hash),
                Ok(None) => Ok(None),
                Err(_) => Err(
                    LookupError::Provider(ProviderError::BlockNumber(number.value() as u64)),
                ),
            }),
    {
        match fetched {
            Ok(Some(b)) => Ok(Some(b.hash.unwrap())),
            Ok(None) => Ok(None),
            Err(_) => Err(LookupError::Provider(ProviderError::BlockNumber(number.as_u64()))),
        }
    }

    /// The chain's head and its finalized and safe block numbers, from the
    /// provider's answers for the latest, finalized and safe blocks. Any of
    /// the three missing or failed is a read error.
    pub fn chain_info(
        &self,
        latest: Result<Option<RpcBlock>, ()>,
        finalized: Result<Option<RpcBlock>, ()>,
        safe: Result<Option<RpcBlock>, ()>,
    ) -> (r: Result<ChainInfo, LookupError>)
        requires
            (latest, finalized, safe) matches (Ok(Some(l)), Ok(Some(_)), Ok(Some(_))) ==> l.hash is Some
                && l.number is Some,
        ensures
            r == (match (latest, finalized, safe) {
                (Ok(Some(l)), Ok(Some(f)), Ok(Some(s))) => Ok(
                    ChainInfo {
                        best_hash: l.hash->0,
                        best_number: l.number->0,
                        last_finalized: f.number,
                        safe_finalized: s.number,
                    },
                ),
                _ => Err(LookupError::DatabaseRead(CHAIN_INFO_READ_CODE)),
            }),
    {
        let latest_block = match latest {
            Ok(Some(b)) => b,
            _ => {
                return Err(LookupError::DatabaseRead(CHAIN_INFO_READ_CODE));
            },
        };
        let safe_block = match safe {
            Ok(Some(b)) => b,
            _ => {
                return Err(LookupError::DatabaseRead(CHAIN_INFO_READ_CODE));
            },
        };
        let finalized_block = match finalized {
            Ok(Some(b)) => b,
            _ => {
                return Err(LookupError::DatabaseRead(CHAIN_INFO_READ_CODE));
            },
        };
        Ok(
            ChainInfo {
                best_hash: latest_block.hash.unwrap(),
                best_number: latest_block.number.unwrap(),
                last_finalized: finalized_block.number,
                safe_finalized: safe_block.number,
            },
        )
    }

    /// First half of a block lookup: from the provider's answer, the block
    /// and the request for its body, to be answered through `reply_to`.
    pub fn block_body_request<R>(
        &self,
        fetched: Result<Option<RpcBlock>, ()>,
        reply_to: R,
    ) -> (r: Result<(RpcBlock, FetcherReq<R>), LookupError>)
        requires
            fetched matches Ok(Some(b)) ==> b.hash is Some,
        ensures
            match fetched {
                Ok(Some(b)) => r matches Ok((blk, FetcherReq::BlockBodyReq((to, hashes))))
                    && blk == b && to == reply_to && hashes@ == seq![b.hash->0],
                _ => r == Err::<(RpcBlock, FetcherReq<R>), LookupError>(unavailable()),
            },
    {
        let block = match fetched {
            Ok(Some(b)) => b,
            _ => {
                return Err(LookupError::Provider(ProviderError::BlockNumber(0)));
            },
        };
        let hash = block.hash.unwrap();
        let mut hashes: Vec<[u8; 32]> = Vec::new();
        hashes.push(hash);
        Ok((block, FetcherReq::BlockBodyReq((reply_to, hashes))))
    }

    /// Second half of a block lookup: the block with the first body that
    /// the network returned. A failed or empty answer is an unavailable
    /// block.
    pub fn assemble_block<T>(&self, block: RpcBlock, bodies: Result<Vec<BlockBody<T>>, ()>) -> (r:
        Result<Option<Block<T>>, LookupError>)
        requires
            bodies matches Ok(v) && v@.len() > 0 ==> block.header_complete(),
        ensures
            match bodies {
                Ok(v) => if v@.len() > 0 {
                    r matches Ok(Some(blk)) && header_of(blk.header, block) && blk.body
                        == v@[0].transactions && blk.ommers == v@[0].ommers
                } else {
                    r == Err::<Option<Block<T>>, LookupError>(unavailable())
                },
                Err(_) => r == Err::<Option<Block<T>>, LookupError>(unavailable()),
            },
    {
        let mut body = match bodies {
            Ok(v) => v,
            Err(_) => {
                return Err(LookupError::Provider(ProviderError::BlockNumber(0)));
            },
        };
        if body.len() == 0 {
            return Err(LookupError::Provider(ProviderError::BlockNumber(0)));
        }
        let res = body.remove(0);
        let header = match self.build_header(block) {
            Ok(h) => h,
            Err(e) => {
                return Err(e);
            },
        };
        Ok(Some(Block { header, body: res.transactions, ommers: res.ommers }))
    }

    /// The number of the block with the given hash, from the provider's
    /// answer for that hash.
    pub fn block_number(&self, hash: [u8; 32], fetched: Result<Option<RpcBlock>, ()>) -> (r: Result<
        Option<u64>,
        LookupError,
    >)
        requires
            fetched matches Ok(Some(b)) ==> b.number is Some,
        ensures
            r == (match fetched {
                Ok(Some(b)) => Ok(b.number),
                Ok(None) => Ok(None),
                Err(_) => Err(LookupError::Provider(ProviderError::BlockHash(hash))),
            }),
    {
        match fetched {
            Ok(Some(b)) => Ok(Some(b.number.unwrap())),
            Ok(None) => Ok(None),
            Err(_) => Err(LookupError::Provider(ProviderError::BlockHash(hash))),
        }
    }

    /// The header of a block, by hash or by number, from the provider's
    /// answer; a failed call and a missing block are both an unavailable
    /// block.
    pub fn header(&self, fetched: Result<Option<RpcBlock>, ()>) -> (r: Result<
        Option<Header>,
        LookupError,
    >)
        requires
            fetched matches Ok(Some(b)) ==> b.header_complete(),
        ensures
            match fetched {
                Ok(Some(b)) => r matches Ok(Some(h)) && header_of(h, b),
                _ => r == Err::<Option<Header>, LookupError>(unavailable()),
            },
    {
        let block = match self.get_block(fetched) {
            Ok(Some(b)) => b,
            Ok(None) => {
                return Err(LookupError::Provider(ProviderError::BlockNumber(0)));
            },
            Err(e) => {
                return Err(e);
            },
        };
        match self.build_header(block) {
            Ok(h) => Ok(Some(h)),
            Err(e) => Err(e),
        }
    }

    /// The total difficulty recorded for the block with the given hash, from
    /// the provider's answer for that hash.
    pub fn header_td(&self, hash: [u8; 32], fetched: Result<Option<RpcBlock>, ()>) -> (r: Result<
        Option<Word256>,
        LookupError,
    >)
        ensures
            r == (match fetched {
                Ok(Some(b)) => Ok(Some(b.difficulty)),
                Ok(None) => Err(LookupError::Provider(ProviderError::BlockHash(hash))),
                Err(_) => Err(unavailable()),
            }),
    {
        match self.get_block(fetched) {
            Ok(Some(b)) => Ok(Some(b.difficulty)),
            Ok(None) => Err(LookupError::Provider(ProviderError::BlockHash(hash))),
            Err(e) => Err(e),
        }
    }
}

} // verus!
