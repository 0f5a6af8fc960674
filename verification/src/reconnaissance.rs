use vstd::prelude::*;
use vstd::utf8::encode_utf8_valid_utf8;
use vstd::utf8::is_char_boundary;
use vstd::utf8::is_char_boundary_iff_not_is_continuation_byte;
use vstd::utf8::is_char_boundary_start_end_of_seq;
use vstd::utf8::valid_utf8;
use vstd::string::StringSliceAdditionalSpecFns;

verus! {

/// The byte that separates a node's id from its address in an enode URL.
pub const AT: u8 = 0x40;

/// The index of the first `@` in `bytes`, or the length where there is none.
pub open spec fn at_index(bytes: Seq<u8>) -> nat
    decreases bytes.len(),
{
    if bytes.len() == 0 || bytes[0] == AT {
        0
    } else {
        1 + at_index(bytes.drop_first())
    }
}

/// An enode URL can be taken apart: past its 8-byte scheme, which ends on a
/// character boundary, an `@` separates the node id from the address.
pub open spec fn splits_as_enode(bytes: Seq<u8>) -> bool {
    &&& bytes.len() >= 8
    &&& is_char_boundary(bytes, 8)
    &&& bytes.subrange(8, bytes.len() as int).contains(AT)
}

/// An enode URL past its 8-byte scheme.
pub open spec fn enode_rest(bytes: Seq<u8>) -> Seq<u8> {
    bytes.subrange(8, bytes.len() as int)
}

/// The text of the node id in an enode URL: up to the first `@`.
pub open spec fn enode_id_text(bytes: Seq<u8>) -> Seq<u8> {
    enode_rest(bytes).take(at_index(enode_rest(bytes)) as int)
}

/// The text of the node's address in an enode URL: from the first `@` to
/// the next one, or to the end.
pub open spec fn enode_address_text(bytes: Seq<u8>) -> Seq<u8> {
    let after = enode_rest(bytes).skip(at_index(enode_rest(bytes)) as int + 1);
    after.take(at_index(after) as int)
}

proof fn lemma_at_index(bytes: Seq<u8>, i: int)
    requires
        0 <= i <= bytes.len(),
        forall|k: int| 0 <= k < i ==> bytes[k] != AT,
        i == bytes.len() || bytes[i] == AT,
    ensures
        at_index(bytes) == i,
    decreases i,
{
    if i > 0 {
        lemma_at_index(bytes.drop_first(), i - 1);
    }
}

/// The first `@`: no `@` comes before the index, and the index is the
/// length or holds an `@`.
pub proof fn lemma_first_at(bytes: Seq<u8>)
    ensures
        at_index(bytes) <= bytes.len(),
        forall|k: int| 0 <= k < at_index(bytes) ==> bytes[k] != AT,
        at_index(bytes) < bytes.len() ==> bytes[at_index(bytes) as int] == AT,
        at_index(bytes) < bytes.len() <==> bytes.contains(AT),
    decreases bytes.len(),
{
    if bytes.len() > 0 && bytes[0] != AT {
        lemma_first_at(bytes.drop_first());
        assert forall|k: int| 0 <= k < at_index(bytes) implies bytes[k] != AT by {
            if k > 0 {
                assert(bytes[k] == bytes.drop_first()[k - 1]);
            }
        }
        if bytes.contains(AT) {
            let k = choose|k: int| 0 <= k < bytes.len() && bytes[k] == AT;
            assert(bytes.drop_first()[k - 1] == AT);
        }
        if bytes.drop_first().contains(AT) {
            let k = choose|k: int|
                0 <= k < bytes.drop_first().len() && bytes.drop_first()[k] == AT;
            assert(bytes[k + 1] == AT);
        }
    } else if bytes.len() > 0 {
        assert(bytes.contains(AT)) by {
            assert(bytes[0] == AT);
        }
    }
}

/// A splittable enode URL is, past its scheme, the id text, an `@`, and the
/// rest; the id holds no `@`; the address is the rest up to its first `@`
/// or its end.
pub proof fn lemma_enode_parts(bytes: Seq<u8>)
    requires
        splits_as_enode(bytes),
    ensures
        ({
            let rest = bytes.subrange(8, bytes.len() as int);
            let id = enode_id_text(bytes);
            let after = rest.skip(id.len() as int + 1);
            let addr = enode_address_text(bytes);
            &&& !id.contains(AT)
            &&& id.len() < rest.len()
            &&& rest =~= id + seq![AT] + after
            &&& !addr.contains(AT)
            &&& addr.len() <= after.len()
            &&& after.take(addr.len() as int) =~= addr
            &&& (addr.len() == after.len() || after[addr.len() as int] == AT)
        }),
{
    let rest = bytes.subrange(8, bytes.len() as int);
    lemma_first_at(rest);
    let i = at_index(rest);
    let after = rest.skip(i as int + 1);
    lemma_first_at(after);
    let id = enode_id_text(bytes);
    let addr = enode_address_text(bytes);
    assert(!id.contains(AT)) by {
        if id.contains(AT) {
            let k = choose|k: int| 0 <= k < id.len() && id[k] == AT;
            assert(rest[k] == AT);
        }
    }
    assert(!addr.contains(AT)) by {
        if addr.contains(AT) {
            let k = choose|k: int| 0 <= k < addr.len() && addr[k] == AT;
            assert(after[k] == AT);
        }
    }
}

/// The index of the first `@` in `bytes`, or the length where there is none.
fn find_at(bytes: &[u8]) -> (i: usize)
    ensures
        i == at_index(bytes@),
        i <= bytes@.len(),
        forall|k: int| 0 <= k < i ==> bytes@[k] != AT,
        i < bytes@.len() ==> bytes@[i as int] == AT,
{
    let mut i: usize = 0;
    while i < bytes.len()
        invariant
            i <= bytes@.len(),
            forall|k: int| 0 <= k < i ==> bytes@[k] != AT,
        decreases bytes@.len() - i,
    {
        if bytes[i] == AT {
            proof {
                lemma_at_index(bytes@, i as int);
            }
            return i;
        }
        i = i + 1;
    }
    proof {
        lemma_at_index(bytes@, i as int);
    }
    i
}

/// In valid UTF-8, the byte after a one-byte character starts a character.
proof fn lemma_boundary_after_ascii(bytes: Seq<u8>)
    requires
        valid_utf8(bytes),
        bytes.len() > 0,
        bytes[0] < 0x80,
    ensures
        is_char_boundary(bytes, 1),
{
    reveal_with_fuel(is_char_boundary, 2);
    is_char_boundary_start_end_of_seq(vstd::utf8::pop_first_scalar(bytes));
}

/// Takes an enode URL apart into the text of the node id and the text of the
/// node's address: the scheme (the first 8 bytes) is skipped, the id runs to
/// the first `@`, the address from there to the next `@` or the end.
/// `None` where the URL has no such parts.
pub fn split_enode(s: &str) -> (r: Option<(&str, &str)>)
    ensures
        r is Some <==> splits_as_enode(s.spec_bytes()),
        r matches Some((id, addr)) ==> id.spec_bytes() == enode_id_text(s.spec_bytes())
            && addr.spec_bytes() == enode_address_text(s.spec_bytes()),
{
    proof {
        encode_utf8_valid_utf8(s@);
    }
    if !s.is_char_boundary(8) {
        return None;
    }
    let (_, rest) = s.split_at(8);
    let rb = rest.as_bytes();
    let i = find_at(rb);
    if i == rb.len() {
        proof {
            if s.spec_bytes().subrange(8, s.spec_bytes().len() as int).contains(AT) {
                let k = choose|k: int| 0 <= k < rb@.len() && rb@[k] == AT;
                assert(rb@[k] == AT);
            }
        }
        return None;
    }
    proof {
        encode_utf8_valid_utf8(rest@);
        is_char_boundary_iff_not_is_continuation_byte(rb@, i as int);
        assert(rb@.contains(AT)) by {
            assert(rb@[i as int] == AT);
        }
    }
    let (id, tail) = rest.split_at(i);
    proof {
        encode_utf8_valid_utf8(tail@);
        assert(tail.spec_bytes()[0] == AT);
        lemma_boundary_after_ascii(tail.spec_bytes());
    }
    let (_, after) = tail.split_at(1);
    let ab = after.as_bytes();
    let j = find_at(ab);
    proof {
        encode_utf8_valid_utf8(after@);
        if j < ab@.len() {
            is_char_boundary_iff_not_is_continuation_byte(ab@, j as int);
        } else {
            is_char_boundary_start_end_of_seq(ab@);
        }
    }
    let (addr, _) = after.split_at(j);
    proof {
        assert(rb@ == enode_rest(s.spec_bytes()));
        assert(id.spec_bytes() =~= enode_id_text(s.spec_bytes()));
        assert(ab@ =~= enode_rest(s.spec_bytes()).skip(i + 1));
        assert(addr.spec_bytes() =~= enode_address_text(s.spec_bytes()));
    }
    Some((id, addr))
}

/// Bytes that hex decoding passes over: space, carriage return, line feed
/// and tab.
pub open spec fn is_hex_blank(c: u8) -> bool {
    c == 0x20 || c == 0x0d || c == 0x0a || c == 0x09
}

/// The value of a hex digit, in either case.
pub open spec fn hex_digit_value(c: u8) -> Option<int> {
    if 0x30 <= c <= 0x39 {
        Some(c - 0x30)
    } else if 0x41 <= c <= 0x46 {
        Some(c - 0x41 + 10)
    } else if 0x61 <= c <= 0x66 {
        Some(c - 0x61 + 10)
    } else {
        None
    }
}

/// Decimal digits are worth 0 to 9, the letters `a` to `f` and `A` to `F`
/// 10 to 15; no other byte is a hex digit.
pub proof fn lemma_hex_digit_value(c: u8)
    ensures
        0x30 <= c <= 0x39 ==> hex_digit_value(c) == Some(c - 0x30),
        0x61 <= c <= 0x66 ==> hex_digit_value(c) == Some(c - 0x61 + 10),
        0x41 <= c <= 0x46 ==> hex_digit_value(c) == Some(c - 0x41 + 10),
        hex_digit_value(c) is Some <==> (0x30 <= c <= 0x39 || 0x61 <= c <= 0x66 || 0x41 <= c
            <= 0x46),
        hex_digit_value(c) matches Some(v) ==> 0 <= v < 16,
{
}

/// Text without a leading `0x`, where it has one.
pub open spec fn without_hex_prefix(text: Seq<u8>) -> Seq<u8> {
    if text.len() >= 2 && text[0] == 0x30 && text[1] == 0x78 {
        text.skip(2)
    } else {
        text
    }
}

/// The 64-byte id that hex text spells: after an optional `0x` and with
/// blanks passed over, exactly 128 hex digits, two to a byte, the first
/// digit of each pair the high one.
pub open spec fn node_id_from_hex(text: Seq<u8>) -> Option<Seq<u8>> {
    let digits = without_hex_prefix(text).filter(|c: u8| !is_hex_blank(c));
    if digits.len() == 128 && forall|i: int|
        0 <= i < 128 ==> #[trigger] hex_digit_value(digits[i]) is Some {
        Some(
            Seq::new(
                64,
                |i: int|
                    (hex_digit_value(digits[2 * i])->0 * 16 + hex_digit_value(
                        digits[2 * i + 1],
                    )->0) as u8,
            ),
        )
    } else {
        None
    }
}

/// Calls `H512::from_str` of ethers' types (fixed-hash's `FromStr`, which
/// decodes with rustc-hex). The claim: it gives the 64 bytes that
/// `node_id_from_hex` spells out, and fails exactly where that gives none.
#[verifier::external_body]
fn h512_from_str(text: &str) -> (r: Option<[u8; 64]>)
    ensures
        match node_id_from_hex(text.spec_bytes()) {
            Some(id) => r matches Some(a) && a@ == id,
            None => r is None,
        },
{
    match <ethers::types::H512 as std::str::FromStr>::from_str(text) {
        Ok(h) => Some(h.0),
        Err(_) => None,
    }
}

/// A node's 64-byte id and the text of its address, from its enode URL.
/// `None` where the URL cannot be taken apart or its id is not 128 hex
/// digits.
pub fn node_record(s: &str) -> (r: Option<([u8; 64], &str)>)
    ensures
        r is Some <==> splits_as_enode(s.spec_bytes()) && node_id_from_hex(
            enode_id_text(s.spec_bytes()),
        ) is Some,
        r matches Some((id, addr)) ==> node_id_from_hex(enode_id_text(s.spec_bytes())) == Some(
            id@,
        ) && addr.spec_bytes() == enode_address_text(s.spec_bytes()),
{
    match split_enode(s) {
        Some((id_text, addr)) => match h512_from_str(id_text) {
            Some(id) => Some((id, addr)),
            None => None,
        },
        None => None,
    }
}

/// How the node connects and reports.
#[derive(Clone, Copy, Debug, PartialEq, Eq)]
pub struct NodeSettings {
    /// The JSON-RPC endpoint that chain data is read from.
    pub rpc_url: &'static str,
    pub max_inbound: usize,
    pub max_outbound: usize,
    pub max_pending_inbound: usize,
    pub max_pending_outbound: usize,
    /// How often free peer slots are refilled, in milliseconds.
    pub slot_refill_interval_ms: u64,
    /// How often the number of connected peers is reported, in seconds.
    pub stats_interval_secs: u64,
}

/// The settings the node runs with.
pub fn node_settings() -> (r: NodeSettings)
    ensures
        r.rpc_url@ == "https://rpc.ankr.com/eth"@,
        r.max_inbound == 100,
        r.max_outbound == 100,
        r.max_pending_inbound == 5,
        r.max_pending_outbound == 5,
        r.slot_refill_interval_ms == 200,
        r.stats_interval_secs == 3,
{
    NodeSettings {
        rpc_url: "https://rpc.ankr.com/eth",
        max_inbound: 100,
        max_outbound: 100,
        max_pending_inbound: 5,
        max_pending_outbound: 5,
        slot_refill_interval_ms: 200,
        stats_interval_secs: 3,
    }
}

/// What polling the channel of block-body requests gave.
#[derive(Clone, Copy, Debug, PartialEq, Eq)]
pub enum ClientEvent {
    /// The channel is closed: every sender is gone.
    Closed,
    /// A request for block bodies arrived.
    BodyRequest,
    /// Nothing arrived yet.
    Idle,
}

/// What the node just observed, in answer to the last `Next`.
#[derive(Clone, Copy, Debug, PartialEq, Eq)]
pub enum PollEvent {
    /// The channel of block-body requests was polled.
    Client(ClientEvent),
    /// A pending fetch task was polled; `true` when one had finished.
    Task(bool),
    /// The statistics timer was polled; `true` when it fired.
    Tick(bool),
    /// A background service was polled; `true` when it has ended.
    Service(bool),
}

/// Where a round of polling stands.
#[derive(Clone, Copy, Debug, PartialEq, Eq)]
pub enum PollStage {
    AwaitClient,
    DrainTasks,
    AwaitTick,
    /// Waiting for the service with this index.
    AwaitService(usize),
    Done,
}

/// What the node does next.
#[derive(Clone, Copy, Debug, PartialEq, Eq)]
pub enum Next {
    PollTask,
    PollTick,
    PollService(usize),
    /// The node is finished.
    ReturnReady,
    /// Ask to be polled again and return pending.
    WakeAndReturnPending,
}

/// The node's reaction to one observation.
#[derive(Clone, Copy, Debug, PartialEq, Eq)]
pub struct PollStep {
    /// Start a task that fetches the requested block bodies from the network.
    pub spawn_fetch: bool,
    /// Report the number of connected peers.
    pub log_peers: bool,
    pub next: Next,
}

/// The observation that a stage waits for is of the right kind.
pub open spec fn expects(stage: PollStage, event: PollEvent) -> bool {
    match (stage, event) {
        (PollStage::AwaitClient, PollEvent::Client(_)) => true,
        (PollStage::DrainTasks, PollEvent::Task(_)) => true,
        (PollStage::AwaitTick, PollEvent::Tick(_)) => true,
        (PollStage::AwaitService(_), PollEvent::Service(_)) => true,
        _ => false,
    }
}

/// The step to the first service, or to the end of the round where there
/// are none.
pub open spec fn services_from(i: nat, services: nat, log_peers: bool) -> (PollStage, PollStep) {
    if i < services {
        (
            PollStage::AwaitService(i as usize),
            PollStep { spawn_fetch: false, log_peers, next: Next::PollService(i as usize) },
        )
    } else {
        (
            PollStage::Done,
            PollStep { spawn_fetch: false, log_peers, next: Next::WakeAndReturnPending },
        )
    }
}

/// One round of the node's polling, from one observation to the next: a
/// closed request channel ends the node; a request starts a fetch; finished
/// fetch tasks are collected until none is ready; a fired timer reports the
/// peers; the services are polled in order and the first that has ended
/// ends the node; otherwise the node asks to be polled again.
pub open spec fn poll_step(stage: PollStage, services: nat, event: PollEvent) -> (
    PollStage,
    PollStep,
) {
    let quiet = PollStep { spawn_fetch: false, log_peers: false, next: Next::PollTask };
    match (stage, event) {
        (PollStage::AwaitClient, PollEvent::Client(ClientEvent::Closed)) => (
            PollStage::Done,
            PollStep { next: Next::ReturnReady, ..quiet },
        ),
        (PollStage::AwaitClient, PollEvent::Client(ClientEvent::BodyRequest)) => (
            PollStage::DrainTasks,
            PollStep { spawn_fetch: true, ..quiet },
        ),
        (PollStage::AwaitClient, PollEvent::Client(ClientEvent::Idle)) => (
            PollStage::DrainTasks,
            quiet,
        ),
        (PollStage::DrainTasks, PollEvent::Task(true)) => (PollStage::DrainTasks, quiet),
        (PollStage::DrainTasks, PollEvent::Task(false)) => (
            PollStage::AwaitTick,
            PollStep { next: Next::PollTick, ..quiet },
        ),
        (PollStage::AwaitTick, PollEvent::Tick(fired)) => services_from(0, services, fired),
        (PollStage::AwaitService(_), PollEvent::Service(true)) => (
            PollStage::Done,
            PollStep { next: Next::ReturnReady, ..quiet },
        ),
        (PollStage::AwaitService(i), PollEvent::Service(false)) => services_from(
            (i + 1) as nat,
            services,
            false,
        ),
        _ => (stage, quiet),
    }
}

/// One round of polling the node's request channel, fetch tasks, timer and
/// services.
pub struct PollRound {
    stage: PollStage,
    services: usize,
}

impl PollRound {
    /// Where the round stands.
    pub closed spec fn stage(&self) -> PollStage {
        self.stage
    }

    /// How many services the round polls.
    pub closed spec fn services(&self) -> nat {
        self.services as nat
    }

    /// A waiting round waits for a service that exists.
    pub open spec fn wf(&self) -> bool {
        self.stage() matches PollStage::AwaitService(i) ==> i < self.services()
    }

    /// A round over `services` services; it first waits for the request
    /// channel.
    pub fn start(services: usize) -> (r: Self)
        ensures
            r.wf(),
            r.stage() == PollStage::AwaitClient,
            r.services() == services,
    {
        PollRound { stage: PollStage::AwaitClient, services }
    }

    /// Where the round stands.
    pub fn current_stage(&self) -> (s: PollStage)
        ensures
            s == self.stage(),
    {
        self.stage
    }

    /// Takes in what the node observed and says what it does next.
    pub fn step(&mut self, event: PollEvent) -> (r: PollStep)
        requires
            old(self).wf(),
            expects(old(self).stage(), event),
        ensures
            final(self).wf(),
            final(self).services() == old(self).services(),
            (final(self).stage(), r) == poll_step(old(self).stage(), old(self).services(), event),
            r.next == Next::ReturnReady <==> (event == PollEvent::Client(ClientEvent::Closed)
                || event == PollEvent::Service(true)),
            r.spawn_fetch <==> event == PollEvent::Client(ClientEvent::BodyRequest),
            r.log_peers <==> event == PollEvent::Tick(true),
            event == PollEvent::Client(ClientEvent::Idle) ==> r == (PollStep {
                spawn_fetch: false,
                log_peers: false,
                next: Next::PollTask,
            }),
    {
        proof {
            lemma_poll_step_laws(self.stage, self.services as nat, event);
        }
        let quiet = PollStep { spawn_fetch: false, log_peers: false, next: Next::PollTask };
        match (self.stage, event) {
            (PollStage::AwaitClient, PollEvent::Client(ClientEvent::Closed)) => {
                self.stage = PollStage::Done;
                PollStep { next: Next::ReturnReady, ..quiet }
            },
            (PollStage::AwaitClient, PollEvent::Client(ClientEvent::BodyRequest)) => {
                self.stage = PollStage::DrainTasks;
                PollStep { spawn_fetch: true, ..quiet }
            },
            (PollStage::AwaitClient, PollEvent::Client(ClientEvent::Idle)) => {
                self.stage = PollStage::DrainTasks;
                quiet
            },
            (PollStage::DrainTasks, PollEvent::Task(true)) => quiet,
            (PollStage::DrainTasks, PollEvent::Task(false)) => {
                self.stage = PollStage::AwaitTick;
                PollStep { next: Next::PollTick, ..quiet }
            },
            (PollStage::AwaitTick, PollEvent::Tick(fired)) => self.services_from(0, fired),
            (PollStage::AwaitService(_), PollEvent::Service(true)) => {
                self.stage = PollStage::Done;
                PollStep { next: Next::ReturnReady, ..quiet }
            },
            (PollStage::AwaitService(i), PollEvent::Service(false)) => {
                self.services_from(i + 1, false)
            },
            _ => quiet,
        }
    }

    fn services_from(&mut self, i: usize, log_peers: bool) -> (r: PollStep)
        ensures
            final(self).services() == old(self).services(),
            final(self).wf(),
            (final(self).stage(), r) == services_from(i as nat, old(self).services(), log_peers),
    {
        if i < self.services {
            self.stage = PollStage::AwaitService(i);
            PollStep { spawn_fetch: false, log_peers, next: Next::PollService(i) }
        } else {
            self.stage = PollStage::Done;
            PollStep { spawn_fetch: false, log_peers, next: Next::WakeAndReturnPending }
        }
    }
}

/// What one observation makes the node do, for every stage and every
/// observation the stage waits for: the node stops exactly when the request
/// channel has closed or a service has ended; it starts a fetch exactly when
/// a body request arrived and reports its peers exactly when the timer
/// fired; with no request waiting it goes on to collect fetch tasks; it
/// collects tasks until none has finished, then polls the timer, then the
/// services in order, and asks to be polled again after the last.
pub proof fn lemma_poll_step_laws(stage: PollStage, services: nat, event: PollEvent)
    requires
        expects(stage, event),
        stage matches PollStage::AwaitService(i) ==> i < services,
        services <= usize::MAX,
    ensures
        ({
            let (next_stage, s) = poll_step(stage, services, event);
            &&& s.next == Next::ReturnReady <==> (event == PollEvent::Client(ClientEvent::Closed)
                || event == PollEvent::Service(true))
            &&& s.spawn_fetch <==> event == PollEvent::Client(ClientEvent::BodyRequest)
            &&& s.log_peers <==> event == PollEvent::Tick(true)
            &&& event == PollEvent::Client(ClientEvent::Idle) ==> s == (PollStep {
                spawn_fetch: false,
                log_peers: false,
                next: Next::PollTask,
            }) && next_stage == PollStage::DrainTasks
            &&& event == PollEvent::Client(ClientEvent::BodyRequest) ==> s.next == Next::PollTask
                && next_stage == PollStage::DrainTasks
            &&& event == PollEvent::Task(true) ==> s.next == Next::PollTask && next_stage
                == PollStage::DrainTasks
            &&& event == PollEvent::Task(false) ==> s.next == Next::PollTick && next_stage
                == PollStage::AwaitTick
            &&& event is Tick ==> s.next == (if services > 0 {
                Next::PollService(0)
            } else {
                Next::WakeAndReturnPending
            })
            &&& stage matches PollStage::AwaitService(i) ==> (event == PollEvent::Service(false)
                ==> s.next == (if i + 1 < services {
                Next::PollService((i + 1) as usize)
            } else {
                Next::WakeAndReturnPending
            }))
            &&& (s.next is ReturnReady || s.next is WakeAndReturnPending) <==> next_stage
                == PollStage::Done
            &&& s.next matches Next::PollService(j) ==> next_stage == PollStage::AwaitService(j)
                && j < services
            &&& s.next == Next::PollTask ==> next_stage == PollStage::DrainTasks
            &&& s.next == Next::PollTick ==> next_stage == PollStage::AwaitTick
        }),
{
}

/// Where polling the services from index `i` on leads, when service `j`
/// has ended exactly when `ended[j]`.
pub open spec fn service_phase(i: nat, services: nat, ended: Seq<bool>) -> Next
    decreases services - i,
{
    if i < services {
        let (_, step) = poll_step(
            PollStage::AwaitService(i as usize),
            services,
            PollEvent::Service(ended[i as int]),
        );
        if step.next is PollService {
            service_phase(i + 1, services, ended)
        } else {
            step.next
        }
    } else {
        Next::WakeAndReturnPending
    }
}

/// Once the timer has been polled, a round ends the node exactly when one of
/// its services has ended, and otherwise asks to be polled again.
pub proof fn lemma_service_phase(i: nat, services: nat, ended: Seq<bool>)
    requires
        i <= services,
        services <= usize::MAX,
        ended.len() == services,
    ensures
        service_phase(i, services, ended) == (if exists|j: int| i <= j < services && ended[j] {
            Next::ReturnReady
        } else {
            Next::WakeAndReturnPending
        }),
    decreases services - i,
{
    if i < services {
        lemma_service_phase(i + 1, services, ended);
        if !ended[i as int] {
            assert forall|j: int| i <= j < services && ended[j] implies i + 1 <= j by {}
        }
    }
}

/// A closed request channel ends the round at once: nothing is fetched and
/// no service is polled.
pub proof fn lemma_closed_channel_ends(services: nat)
    ensures
        poll_step(PollStage::AwaitClient, services, PollEvent::Client(ClientEvent::Closed)) == (
            PollStage::Done,
            PollStep { spawn_fetch: false, log_peers: false, next: Next::ReturnReady },
        ),
{
}

} // verus!
