use vstd::prelude::*;
use core::time::Duration;
use crate::addr::{addr_rank, is_v4, IpAddr};
use crate::packet::{
    build_echo_request, build_echov6_request, echo_request, echov6_request, ECHO_HEADER_LEN,
    MAX_PACKET_LEN,
};

verus! {

/// The probe state of one target, as the contracts see it.
pub struct PingView {
    pub addr: IpAddr,
    pub identifier: u16,
    pub sequence_number: u16,
    pub seen: bool,
}

/// The probe state of one target: its address, the identifier stamped on
/// its echo requests, the sequence number of the current round, and whether
/// a matching reply has arrived in this round.
#[derive(Debug, Clone, Copy)]
pub struct Ping {
    addr: IpAddr,
    identifier: u16,
    sequence_number: u16,
    pub seen: bool,
}

/// An echo reply as the packet receiver reports it.
#[derive(Debug, Clone, Copy, PartialEq, Eq)]
pub struct ReceivedPing {
    pub addr: IpAddr,
    pub identifier: u16,
    pub sequence_number: u16,
    pub rtt: Duration,
    pub ttl: u8,
}

/// The outcome of one round for one target.
#[derive(Debug, Clone, Copy, PartialEq, Eq)]
pub enum PingResult {
    Idle { addr: IpAddr },
    Receive { addr: IpAddr, rtt: Duration, seq: u16, ttl: u8 },
}

/// An echo request ready to be sent to `addr`.
pub struct Probe {
    pub addr: IpAddr,
    pub packet: Vec<u8>,
}

/// The sequence number that follows `s`, wrapping at 16 bits.
pub open spec fn next_seq(s: u16) -> u16 {
    if s == 0xffff {
        0
    } else {
        (s + 1) as u16
    }
}

/// The sequence number after `n` rounds that started at `start`.
pub open spec fn seq_after_rounds(start: u16, n: nat) -> u16
    decreases n,
{
    if n == 0 {
        start
    } else {
        next_seq(seq_after_rounds(start, (n - 1) as nat))
    }
}

impl View for Ping {
    type V = PingView;

    closed spec fn view(&self) -> PingView {
        PingView {
            addr: self.addr,
            identifier: self.identifier,
            sequence_number: self.sequence_number,
            seen: self.seen,
        }
    }
}

/// Relies on `rand::random::<u16>`: any 16-bit value may come back.
#[verifier::external_body]
fn random_identifier() -> (r: u16) {
    rand::random::<u16>()
}

/// A new target at `addr` starting from sequence number `seq`: it carries
/// `identifier` if it is an IPv4 target and identifier zero otherwise.
pub open spec fn fresh(addr: IpAddr, identifier: u16, seq: u16) -> PingView {
    PingView {
        addr,
        identifier: if is_v4(addr) {
            identifier
        } else {
            0
        },
        sequence_number: seq,
        seen: false,
    }
}

impl Ping {
    /// A target at `addr` with sequence number zero, not seen. An IPv4 target
    /// gets a random identifier; an IPv6 target gets identifier zero.
    pub fn new(addr: IpAddr) -> (r: Ping)
        ensures
            r@ == fresh(addr, r@.identifier, 0),
    {
        Ping::new_with_seq(addr, 0)
    }

    /// Like `new`, starting from sequence number `seq`.
    pub fn new_with_seq(addr: IpAddr, seq: u16) -> (r: Ping)
        ensures
            r@ == fresh(addr, r@.identifier, seq),
    {
        let mut identifier: u16 = 0;
        if addr.is_ipv4() {
            identifier = random_identifier();
        }
        Ping::with_identifier(addr, identifier, seq)
    }

    /// A target at `addr` starting from sequence number `seq`, not seen,
    /// stamped with `identifier` if it is an IPv4 target and with zero
    /// otherwise.
    pub fn with_identifier(addr: IpAddr, identifier: u16, seq: u16) -> (r: Ping)
        ensures
            r@ == fresh(addr, identifier, seq),
    {
        let identifier = if addr.is_ipv4() {
            identifier
        } else {
            0
        };
        Ping { addr, identifier, sequence_number: seq, seen: false }
    }

    pub fn get_addr(&self) -> (r: IpAddr)
        ensures
            r == self@.addr,
    {
        self.addr
    }

    pub fn get_identifier(&self) -> (r: u16)
        ensures
            r == self@.identifier,
    {
        self.identifier
    }

    pub fn get_sequence_number(&self) -> (r: u16)
        ensures
            r == self@.sequence_number,
    {
        self.sequence_number
    }

    pub fn is_seen(&self) -> (r: bool)
        ensures
            r == self@.seen,
    {
        self.seen
    }

    /// Advances the sequence number by one, wrapping at 16 bits, and returns
    /// the new value.
    pub fn increment_sequence_number(&mut self) -> (r: u16)
        ensures
            r == next_seq(old(self)@.sequence_number),
            final(self)@ == (PingView { sequence_number: r, ..old(self)@ }),
    {
        self.sequence_number = self.sequence_number.wrapping_add(1);
        self.sequence_number
    }
}

/// Addresses strictly increase along the registry, so each occurs once.
pub open spec fn ordered(s: Seq<PingView>) -> bool {
    forall|i: int, j: int| 0 <= i < j < s.len() ==> addr_rank(s[i].addr) < addr_rank(s[j].addr)
}

/// Whether `r` answers the current round of target `p`.
pub open spec fn reply_matches(p: PingView, r: ReceivedPing) -> bool {
    p.addr == r.addr && p.identifier == r.identifier && p.sequence_number == r.sequence_number
}

/// The echo request that goes to target `p` in a round, `p` already advanced.
pub open spec fn probe_packet(p: PingView, size: nat) -> Seq<u8> {
    if is_v4(p.addr) {
        echo_request(size, p.identifier, p.sequence_number)
    } else {
        echov6_request(size)
    }
}

/// The state of target `p` once a round has begun.
pub open spec fn begun(p: PingView) -> PingView {
    PingView { sequence_number: next_seq(p.sequence_number), seen: false, ..p }
}

/// One `Idle` event per target not seen, in registry order.
pub open spec fn idle_events(s: Seq<PingView>) -> Seq<PingResult>
    decreases s.len(),
{
    if s.len() == 0 {
        Seq::empty()
    } else {
        let rest = idle_events(s.drop_last());
        if s.last().seen {
            rest
        } else {
            rest.push(PingResult::Idle { addr: s.last().addr })
        }
    }
}

/// The registry of targets, ordered by address.
pub struct Targets {
    pings: Vec<Ping>,
}

impl View for Targets {
    type V = Seq<PingView>;

    closed spec fn view(&self) -> Seq<PingView> {
        self.pings@.map_values(|p: Ping| p@)
    }
}

impl Targets {
    pub open spec fn wf(&self) -> bool {
        ordered(self@)
    }

    /// An empty registry.
    pub fn new() -> (r: Targets)
        ensures
            r.wf(),
            r@ == Seq::<PingView>::empty(),
    {
        let r = Targets { pings: Vec::new() };
        assert(r@ =~= Seq::<PingView>::empty());
        r
    }

    pub fn len(&self) -> (r: usize)
        ensures
            r == self@.len(),
    {
        self.pings.len()
    }

    /// The target at position `i`.
    pub fn get(&self, i: usize) -> (r: &Ping)
        requires
            i < self@.len(),
        ensures
            r@ == self@[i as int],
    {
        &self.pings[i]
    }

    /// The position of the target at `addr`, if there is one.
    pub fn find(&self, addr: &IpAddr) -> (r: Option<usize>)
        requires
            self.wf(),
        ensures
            r is Some <==> exists|j: int| 0 <= j < self@.len() && self@[j].addr == *addr,
            r matches Some(j) ==> j < self@.len() && self@[j as int].addr == *addr,
    {
        let mut i: usize = 0;
        while i < self.pings.len()
            invariant
                i <= self@.len(),
                self@.len() == self.pings@.len(),
                forall|j: int| 0 <= j < i ==> self@[j].addr != *addr,
            decreases self.pings@.len() - i,
        {
            if self.pings[i].addr == *addr {
                return Some(i);
            }
            i += 1;
        }
        None
    }

    /// Adds `p`, replacing the target at the same address if there is one.
    pub fn insert(&mut self, p: Ping)
        requires
            old(self).wf(),
        ensures
            final(self).wf(),
            (exists|j: int| 0 <= j < old(self)@.len() && old(self)@[j].addr == p@.addr) ==> exists|
                j: int,
            |
                0 <= j < old(self)@.len() && old(self)@[j].addr == p@.addr && final(self)@
                    == old(self)@.update(j, p@),
            !(exists|j: int| 0 <= j < old(self)@.len() && old(self)@[j].addr == p@.addr) ==> exists|
                k: int,
            | 0 <= k <= old(self)@.len() && final(self)@ == old(self)@.insert(k, p@),
    {
        let ghost s0 = self@;
        let mut i: usize = 0;
        while i < self.pings.len() && self.pings[i].addr.precedes(&p.addr)
            invariant
                i <= s0.len(),
                self@ == s0,
                s0.len() == self.pings@.len(),
                forall|j: int| 0 <= j < i ==> addr_rank(s0[j].addr) < addr_rank(p@.addr),
            decreases self.pings@.len() - i,
        {
            i += 1;
        }
        if i < self.pings.len() && self.pings[i].addr == p.addr {
            self.pings[i] = p;
            assert(self@ =~= s0.update(i as int, p@));
        } else {
            proof {
                if i < s0.len() {
                    crate::addr::lemma_rank_injective(s0[i as int].addr, p@.addr);
                }
                assert forall|j: int| 0 <= j < s0.len() implies s0[j].addr != p@.addr by {
                    if j >= i && i < s0.len() && j > i {
                        crate::addr::lemma_rank_injective(s0[j].addr, p@.addr);
                    }
                }
            }
            self.pings.insert(i, p);
            assert(self@ =~= s0.insert(i as int, p@));
        }
    }

    /// Begins a round: advances every target's sequence number, clears its
    /// seen flag, and builds the echo request it is sent, in registry order.
    pub fn begin_round(&mut self, size: usize) -> (probes: Vec<Probe>)
        requires
            old(self).wf(),
            ECHO_HEADER_LEN <= size <= MAX_PACKET_LEN,
        ensures
            final(self).wf(),
            final(self)@ == old(self)@.map_values(|p: PingView| begun(p)),
            probes@.len() == old(self)@.len(),
            forall|i: int|
                0 <= i < probes@.len() ==> probes@[i].addr == old(self)@[i].addr
                    && probes@[i].packet@ == probe_packet(final(self)@[i], size as nat),
    {
        let ghost s0 = self@;
        let mut probes: Vec<Probe> = Vec::new();
        let mut i: usize = 0;
        while i < self.pings.len()
            invariant
                i <= s0.len(),
                s0.len() == self.pings@.len(),
                ECHO_HEADER_LEN <= size <= MAX_PACKET_LEN,
                probes@.len() == i,
                forall|j: int| 0 <= j < i ==> self@[j] == begun(s0[j]),
                forall|j: int| i <= j < s0.len() ==> self@[j] == s0[j],
                forall|j: int|
                    0 <= j < i ==> probes@[j].addr == s0[j].addr && probes@[j].packet@
                        == probe_packet(self@[j], size as nat),
            decreases self.pings@.len() - i,
        {
            let mut p = self.pings[i];
            p.increment_sequence_number();
            p.seen = false;
            let packet = if p.addr.is_ipv4() {
                build_echo_request(size, p.identifier, p.sequence_number)
            } else {
                build_echov6_request(size)
            };
            probes.push(Probe { addr: p.addr, packet });
            self.pings[i] = p;
            i += 1;
        }
        assert(self@ =~= s0.map_values(|p: PingView| begun(p)));
        probes
    }

    /// Matches a reply against the target at its address. A reply whose
    /// identifier and sequence number both equal the target's current ones
    /// marks the target seen and yields a `Receive`; any other reply,
    /// including one from an unknown address, changes nothing and yields
    /// nothing.
    pub fn record_reply(&mut self, reply: &ReceivedPing) -> (r: Option<PingResult>)
        requires
            old(self).wf(),
        ensures
            final(self).wf(),
            r is Some <==> exists|j: int|
                0 <= j < old(self)@.len() && reply_matches(old(self)@[j], *reply),
            r is None ==> final(self)@ == old(self)@,
            forall|j: int|
                0 <= j < old(self)@.len() && reply_matches(old(self)@[j], *reply) ==> final(self)@
                    == old(self)@.update(j, PingView { seen: true, ..old(self)@[j] }) && r == Some(
                    PingResult::Receive {
                        addr: reply.addr,
                        rtt: reply.rtt,
                        seq: reply.sequence_number,
                        ttl: reply.ttl,
                    },
                ),
    {
        let ghost s0 = self@;
        match self.find(&reply.addr) {
            None => None,
            Some(i) => {
                let mut p = self.pings[i];
                proof {
                    assert forall|j: int| 0 <= j < s0.len() && s0[j].addr == reply.addr implies j
                        == i by {
                        if j != i {
                            crate::addr::lemma_rank_injective(s0[j].addr, s0[i as int].addr);
                        }
                    }
                }
                if p.identifier == reply.identifier && p.sequence_number == reply.sequence_number {
                    p.seen = true;
                    self.pings[i] = p;
                    assert(self@ =~= s0.update(i as int, PingView { seen: true, ..s0[i as int] }));
                    Some(
                        PingResult::Receive {
                            addr: reply.addr,
                            rtt: reply.rtt,
                            seq: reply.sequence_number,
                            ttl: reply.ttl,
                        },
                    )
                } else {
                    None
                }
            },
        }
    }

    /// Ends a round: one `Idle` event for each target not seen, in registry
    /// order.
    pub fn idle_results(&self) -> (r: Vec<PingResult>)
        ensures
            r@ == idle_events(self@),
    {
        let mut out: Vec<PingResult> = Vec::new();
        let mut i: usize = 0;
        while i < self.pings.len()
            invariant
                i <= self@.len(),
                self@.len() == self.pings@.len(),
                out@ == idle_events(self@.subrange(0, i as int)),
            decreases self.pings@.len() - i,
        {
            assert(self@.subrange(0, i + 1).drop_last() =~= self@.subrange(0, i as int));
            if !self.pings[i].seen {
                out.push(PingResult::Idle { addr: self.pings[i].addr });
            }
            i += 1;
        }
        assert(self@.subrange(0, i as int) =~= self@);
        out
    }
}

/// Whether the wait phase of a round is over: the time elapsed since the
/// round began exceeds the longest round trip allowed.
pub fn wait_phase_over(elapsed_nanos: u128, max_rtt_nanos: u128) -> (r: bool)
    ensures
        r == (elapsed_nanos > max_rtt_nanos),
{
    elapsed_nanos > max_rtt_nanos
}

/// How many times `e` occurs in `events`.
pub open spec fn occurrences(events: Seq<PingResult>, e: PingResult) -> nat
    decreases events.len(),
{
    if events.len() == 0 {
        0
    } else {
        occurrences(events.drop_last(), e) + if events.last() == e {
            1nat
        } else {
            0nat
        }
    }
}

/// Whether the registry holds a target at `a` that has not been seen.
pub open spec fn unseen_at(s: Seq<PingView>, a: IpAddr) -> bool {
    exists|j: int| 0 <= j < s.len() && s[j].addr == a && !s[j].seen
}

/// A target's sequence number counts the rounds it has been through: after
/// `n` rounds from `start` it is `start + n`, modulo 2^16. From a fresh
/// target (`start == 0`) it is `n` modulo 2^16.
pub proof fn lemma_rounds_count(start: u16, n: nat)
    ensures
        seq_after_rounds(start, n) as int == (start as int + n) % 0x1_0000,
    decreases n,
{
    if n > 0 {
        lemma_rounds_count(start, (n - 1) as nat);
    }
}

/// The registry after `n` rounds have begun from `s`.
pub open spec fn after_rounds(s: Seq<PingView>, n: nat) -> Seq<PingView>
    decreases n,
{
    if n == 0 {
        s
    } else {
        after_rounds(s, (n - 1) as nat).map_values(|p: PingView| begun(p))
    }
}

/// After `n` rounds every target keeps its address and identifier, and its
/// sequence number has gone up by `n`, modulo 2^16; so a registry of fresh
/// targets (all at zero) has every sequence number at `n` modulo 2^16.
pub proof fn lemma_registry_rounds_count(s: Seq<PingView>, n: nat)
    ensures
        after_rounds(s, n).len() == s.len(),
        forall|i: int|
            0 <= i < s.len() ==> after_rounds(s, n)[i].addr == s[i].addr
                && after_rounds(s, n)[i].identifier == s[i].identifier
                && after_rounds(s, n)[i].sequence_number as int == (s[i].sequence_number as int
                + n) % 0x1_0000,
    decreases n,
{
    if n > 0 {
        lemma_registry_rounds_count(s, (n - 1) as nat);
        assert forall|i: int| 0 <= i < s.len() implies after_rounds(s, n)[i].sequence_number as int
            == (s[i].sequence_number as int + n) % 0x1_0000 by {
            let prev = after_rounds(s, (n - 1) as nat)[i].sequence_number;
            assert(after_rounds(s, n)[i].sequence_number == next_seq(prev));
        }
    }
}

/// Each round, a target that has not been seen gets exactly one `Idle`
/// event, and a target that has been seen, or an address that is not in the
/// registry, gets none.
pub proof fn lemma_idle_exactly_once(s: Seq<PingView>, a: IpAddr)
    requires
        ordered(s),
    ensures
        occurrences(idle_events(s), PingResult::Idle { addr: a }) == if unseen_at(s, a) {
            1nat
        } else {
            0nat
        },
    decreases s.len(),
{
    let e = PingResult::Idle { addr: a };
    if s.len() > 0 {
        let rest = s.drop_last();
        assert(ordered(rest));
        lemma_idle_exactly_once(rest, a);
        let last = s.last();
        if !last.seen {
            assert(idle_events(s).drop_last() =~= idle_events(rest));
        }
        if last.addr == a {
            assert forall|j: int| 0 <= j < rest.len() implies rest[j].addr != a by {
                assert(addr_rank(s[j].addr) < addr_rank(s[s.len() - 1].addr));
            }
            assert(!unseen_at(rest, a));
            if !last.seen {
                assert(unseen_at(s, a));
            } else {
                assert forall|j: int| 0 <= j < s.len() && s[j].addr == a implies s[j].seen by {
                    if j < rest.len() {
                        assert(rest[j] == s[j]);
                    }
                }
            }
        } else {
            if unseen_at(rest, a) {
                let j = choose|j: int| 0 <= j < rest.len() && rest[j].addr == a && !rest[j].seen;
                assert(s[j] == rest[j]);
            }
            if unseen_at(s, a) {
                let j = choose|j: int| 0 <= j < s.len() && s[j].addr == a && !s[j].seen;
                assert(rest[j] == s[j]);
            }
        }
    }
}

/// A target whose reply was matched in a round gets no `Idle` event at the
/// end of that round.
pub proof fn lemma_answered_not_idle(s: Seq<PingView>, j: int)
    requires
        ordered(s),
        0 <= j < s.len(),
    ensures
        occurrences(
            idle_events(s.update(j, PingView { seen: true, ..s[j] })),
            PingResult::Idle { addr: s[j].addr },
        ) == 0,
{
    let t = s.update(j, PingView { seen: true, ..s[j] });
    assert(ordered(t));
    lemma_idle_exactly_once(t, s[j].addr);
    if unseen_at(t, s[j].addr) {
        let k = choose|k: int| 0 <= k < t.len() && t[k].addr == s[j].addr && !t[k].seen;
        if k != j {
            crate::addr::lemma_rank_injective(s[k].addr, s[j].addr);
        }
    }
}

} // verus!
