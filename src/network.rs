//! Network interface traffic counters and the normalizer that undoes
//! 32-bit counter wraparound between polls.
use crate::error::Error;
use crate::net_table::{net_table, parse_net_dev};
use vstd::prelude::*;

verus! {

/// Reduction of an integer to the range of `u64`: the counters add and
/// subtract modulo 2^64.
pub open spec fn wrap(x: int) -> u64 {
    (x % 0x1_0000_0000_0000_0000) as u64
}

/// Traffic counters of one interface, or the sum over several.
#[derive(Clone, Copy, Debug, PartialEq, Eq, Structural)]
pub struct NetIoCounters {
    pub bytes_sent: u64,
    pub bytes_recv: u64,
    pub packets_sent: u64,
    pub packets_recv: u64,
    pub err_in: u64,
    pub err_out: u64,
    pub drop_in: u64,
    pub drop_out: u64,
}

/// Componentwise sum modulo 2^64.
pub open spec fn counters_add(a: NetIoCounters, b: NetIoCounters) -> NetIoCounters {
    NetIoCounters {
        bytes_sent: wrap(a.bytes_sent + b.bytes_sent),
        bytes_recv: wrap(a.bytes_recv + b.bytes_recv),
        packets_sent: wrap(a.packets_sent + b.packets_sent),
        packets_recv: wrap(a.packets_recv + b.packets_recv),
        err_in: wrap(a.err_in + b.err_in),
        err_out: wrap(a.err_out + b.err_out),
        drop_in: wrap(a.drop_in + b.drop_in),
        drop_out: wrap(a.drop_out + b.drop_out),
    }
}

/// Componentwise difference modulo 2^64.
pub open spec fn counters_sub(a: NetIoCounters, b: NetIoCounters) -> NetIoCounters {
    NetIoCounters {
        bytes_sent: wrap(a.bytes_sent - b.bytes_sent),
        bytes_recv: wrap(a.bytes_recv - b.bytes_recv),
        packets_sent: wrap(a.packets_sent - b.packets_sent),
        packets_recv: wrap(a.packets_recv - b.packets_recv),
        err_in: wrap(a.err_in - b.err_in),
        err_out: wrap(a.err_out - b.err_out),
        drop_in: wrap(a.drop_in - b.drop_in),
        drop_out: wrap(a.drop_out - b.drop_out),
    }
}

pub open spec fn zero_counters() -> NetIoCounters {
    NetIoCounters {
        bytes_sent: 0,
        bytes_recv: 0,
        packets_sent: 0,
        packets_recv: 0,
        err_in: 0,
        err_out: 0,
        drop_in: 0,
        drop_out: 0,
    }
}

/// Sum modulo 2^64.
fn add_u64(a: u64, b: u64) -> (r: u64)
    ensures
        r == wrap(a + b),
{
    a.wrapping_add(b)
}

/// Difference modulo 2^64.
fn sub_u64(a: u64, b: u64) -> (r: u64)
    ensures
        r == wrap(a - b),
{
    a.wrapping_sub(b)
}

impl NetIoCounters {
    /// Counters with the given values.
    pub fn new(
        bytes_sent: u64,
        bytes_recv: u64,
        packets_sent: u64,
        packets_recv: u64,
        err_in: u64,
        err_out: u64,
        drop_in: u64,
        drop_out: u64,
    ) -> (r: NetIoCounters)
        ensures
            r == (NetIoCounters {
                bytes_sent,
                bytes_recv,
                packets_sent,
                packets_recv,
                err_in,
                err_out,
                drop_in,
                drop_out,
            }),
    {
        NetIoCounters {
            bytes_sent,
            bytes_recv,
            packets_sent,
            packets_recv,
            err_in,
            err_out,
            drop_in,
            drop_out,
        }
    }

    /// Number of bytes sent.
    pub fn bytes_sent(&self) -> (r: u64)
        ensures
            r == self.bytes_sent,
    {
        self.bytes_sent
    }

    /// Number of bytes received.
    pub fn bytes_recv(&self) -> (r: u64)
        ensures
            r == self.bytes_recv,
    {
        self.bytes_recv
    }

    /// Number of packets sent.
    pub fn packets_sent(&self) -> (r: u64)
        ensures
            r == self.packets_sent,
    {
        self.packets_sent
    }

    /// Number of packets received.
    pub fn packets_recv(&self) -> (r: u64)
        ensures
            r == self.packets_recv,
    {
        self.packets_recv
    }

    /// Number of errors while receiving.
    pub fn err_in(&self) -> (r: u64)
        ensures
            r == self.err_in,
    {
        self.err_in
    }

    /// Number of errors while sending.
    pub fn err_out(&self) -> (r: u64)
        ensures
            r == self.err_out,
    {
        self.err_out
    }

    /// Number of incoming packets that were dropped.
    pub fn drop_in(&self) -> (r: u64)
        ensures
            r == self.drop_in,
    {
        self.drop_in
    }

    /// Number of outgoing packets that were dropped.
    pub fn drop_out(&self) -> (r: u64)
        ensures
            r == self.drop_out,
    {
        self.drop_out
    }

    /// All eight counters at zero, the unit of addition.
    pub fn zero() -> (r: NetIoCounters)
        ensures
            r == zero_counters(),
    {
        NetIoCounters::new(0, 0, 0, 0, 0, 0, 0, 0)
    }

    /// Componentwise sum, modulo 2^64.
    pub fn plus(&self, other: &NetIoCounters) -> (r: NetIoCounters)
        ensures
            r == counters_add(*self, *other),
    {
        NetIoCounters {
            bytes_sent: add_u64(self.bytes_sent, other.bytes_sent),
            bytes_recv: add_u64(self.bytes_recv, other.bytes_recv),
            packets_sent: add_u64(self.packets_sent, other.packets_sent),
            packets_recv: add_u64(self.packets_recv, other.packets_recv),
            err_in: add_u64(self.err_in, other.err_in),
            err_out: add_u64(self.err_out, other.err_out),
            drop_in: add_u64(self.drop_in, other.drop_in),
            drop_out: add_u64(self.drop_out, other.drop_out),
        }
    }

    /// Componentwise difference, modulo 2^64, for showing what changed between two readings.
    pub fn minus(&self, other: &NetIoCounters) -> (r: NetIoCounters)
        ensures
            r == counters_sub(*self, *other),
    {
        NetIoCounters {
            bytes_sent: sub_u64(self.bytes_sent, other.bytes_sent),
            bytes_recv: sub_u64(self.bytes_recv, other.bytes_recv),
            packets_sent: sub_u64(self.packets_sent, other.packets_sent),
            packets_recv: sub_u64(self.packets_recv, other.packets_recv),
            err_in: sub_u64(self.err_in, other.err_in),
            err_out: sub_u64(self.err_out, other.err_out),
            drop_in: sub_u64(self.drop_in, other.drop_in),
            drop_out: sub_u64(self.drop_out, other.drop_out),
        }
    }
}

impl core::ops::Add for NetIoCounters {
    type Output = NetIoCounters;

    fn add(self, other: NetIoCounters) -> (r: NetIoCounters) {
        self.plus(&other)
    }
}

impl vstd::std_specs::ops::AddSpecImpl for NetIoCounters {
    open spec fn obeys_add_spec() -> bool {
        true
    }

    open spec fn add_req(self, other: NetIoCounters) -> bool {
        true
    }

    open spec fn add_spec(self, other: NetIoCounters) -> NetIoCounters {
        counters_add(self, other)
    }
}

proof fn lemma_wrap_add_sub(x: u64, y: u64)
    ensures
        wrap(wrap(x + y) - y) == x,
{
    if x + y < 0x1_0000_0000_0000_0000 {
        assert(wrap(x + y) == x + y);
    } else {
        assert(wrap(x + y) == x + y - 0x1_0000_0000_0000_0000);
    }
}

impl core::ops::Sub for NetIoCounters {
    type Output = NetIoCounters;

    fn sub(self, other: NetIoCounters) -> (r: NetIoCounters) {
        self.minus(&other)
    }
}

impl vstd::std_specs::ops::SubSpecImpl for NetIoCounters {
    open spec fn obeys_sub_spec() -> bool {
        true
    }

    open spec fn sub_req(self, other: NetIoCounters) -> bool {
        true
    }

    open spec fn sub_spec(self, other: NetIoCounters) -> NetIoCounters {
        counters_sub(self, other)
    }
}

/// Adding `b` and then taking it away again gives back `a`.
pub proof fn lemma_add_then_sub(a: NetIoCounters, b: NetIoCounters)
    ensures
        counters_sub(counters_add(a, b), b) == a,
{
    lemma_wrap_add_sub(a.bytes_sent, b.bytes_sent);
    lemma_wrap_add_sub(a.bytes_recv, b.bytes_recv);
    lemma_wrap_add_sub(a.packets_sent, b.packets_sent);
    lemma_wrap_add_sub(a.packets_recv, b.packets_recv);
    lemma_wrap_add_sub(a.err_in, b.err_in);
    lemma_wrap_add_sub(a.err_out, b.err_out);
    lemma_wrap_add_sub(a.drop_in, b.drop_in);
    lemma_wrap_add_sub(a.drop_out, b.drop_out);
}


/// The largest value of a 32-bit kernel counter.
pub const COUNTER32_MAX: u64 = 0xffff_ffff;

/// The corrected value of one counter: the previous corrected value plus
/// what the raw counter moved by, where a fall of the raw counter is read as
/// one 32-bit wraparound.
pub open spec fn nowrap_value(prev: u64, current: u64, corrected: u64) -> u64 {
    if current >= prev {
        wrap(corrected + (current - prev))
    } else {
        wrap(corrected + current + (COUNTER32_MAX - prev))
    }
}

/// `nowrap_value` on each of the eight counters.
pub open spec fn nowrap_counters(
    prev: NetIoCounters,
    current: NetIoCounters,
    corrected: NetIoCounters,
) -> NetIoCounters {
    NetIoCounters {
        bytes_sent: nowrap_value(prev.bytes_sent, current.bytes_sent, corrected.bytes_sent),
        bytes_recv: nowrap_value(prev.bytes_recv, current.bytes_recv, corrected.bytes_recv),
        packets_sent: nowrap_value(prev.packets_sent, current.packets_sent, corrected.packets_sent),
        packets_recv: nowrap_value(prev.packets_recv, current.packets_recv, corrected.packets_recv),
        err_in: nowrap_value(prev.err_in, current.err_in, corrected.err_in),
        err_out: nowrap_value(prev.err_out, current.err_out, corrected.err_out),
        drop_in: nowrap_value(prev.drop_in, current.drop_in, corrected.drop_in),
        drop_out: nowrap_value(prev.drop_out, current.drop_out, corrected.drop_out),
    }
}

/// The corrected value of one counter, modulo 2^64: see `nowrap_value`.
pub fn nowrap(prev: u64, current: u64, corrected: u64) -> (r: u64)
    ensures
        r == nowrap_value(prev, current, corrected),
{
    if current >= prev {
        add_u64(corrected, current - prev)
    } else {
        let r = add_u64(add_u64(corrected, current), sub_u64(COUNTER32_MAX, prev));
        proof {
            lemma_wrap_sum3(corrected, current, COUNTER32_MAX - prev);
        }
        r
    }
}

proof fn lemma_wrap_sum3(a: u64, b: u64, c: int)
    requires
        -0x1_0000_0000_0000_0000 < c < 0x1_0000_0000_0000_0000,
    ensures
        wrap(wrap(a + b) + wrap(c)) == wrap(a + b + c),
{
    let m: int = 0x1_0000_0000_0000_0000;
    let ab = a + b;
    let wab: int = if ab < m { ab } else { ab - m };
    assert(wrap(ab) == wab);
    let wc: int = if c >= 0 { c } else { c + m };
    assert(wrap(c) == wc);
    let s = wab + wc;
    let t = ab + c;
    assert(s - t == 0 || s - t == m || s - t == -m || s - t == 2 * m);
    if s - t == 0 {
    } else if s - t == m {
        assert(wrap(s) == wrap(t)) by {
            assert((t + m) % m == t % m) by (nonlinear_arith);
        }
    } else if s - t == -m {
        assert(wrap(s) == wrap(t)) by {
            assert((t - m) % m == t % m) by (nonlinear_arith);
        }
    } else {
        assert(wrap(s) == wrap(t)) by {
            assert((t + 2 * m) % m == t % m) by (nonlinear_arith);
        }
    }
}

/// The corrected value of each of the eight counters.
pub fn nowrap_struct(
    prev: &NetIoCounters,
    current: &NetIoCounters,
    corrected: &NetIoCounters,
) -> (r: NetIoCounters)
    ensures
        r == nowrap_counters(*prev, *current, *corrected),
{
    NetIoCounters {
        bytes_sent: nowrap(prev.bytes_sent, current.bytes_sent, corrected.bytes_sent),
        bytes_recv: nowrap(prev.bytes_recv, current.bytes_recv, corrected.bytes_recv),
        packets_sent: nowrap(prev.packets_sent, current.packets_sent, corrected.packets_sent),
        packets_recv: nowrap(prev.packets_recv, current.packets_recv, corrected.packets_recv),
        err_in: nowrap(prev.err_in, current.err_in, corrected.err_in),
        err_out: nowrap(prev.err_out, current.err_out, corrected.err_out),
        drop_in: nowrap(prev.drop_in, current.drop_in, corrected.drop_in),
        drop_out: nowrap(prev.drop_out, current.drop_out, corrected.drop_out),
    }
}


/// Abstract view of a per-interface snapshot: names as character sequences.
pub open spec fn nic_view(v: Seq<(String, NetIoCounters)>) -> Seq<(Seq<char>, NetIoCounters)> {
    v.map_values(|e: (String, NetIoCounters)| (e.0@, e.1))
}

proof fn lemma_nic_view_push(s: Seq<(String, NetIoCounters)>, e: (String, NetIoCounters))
    ensures
        nic_view(s.push(e)) == nic_view(s).push((e.0@, e.1)),
{
    assert(nic_view(s.push(e)) =~= nic_view(s).push((e.0@, e.1)));
}

/// The counters of the first entry named `name`.
pub open spec fn lookup(m: Seq<(Seq<char>, NetIoCounters)>, name: Seq<char>) -> Option<NetIoCounters>
    decreases m.len(),
{
    if m.len() == 0 {
        None
    } else if m[0].0 == name {
        Some(m[0].1)
    } else {
        lookup(m.drop_first(), name)
    }
}

/// Index of the first entry named `name`.
pub open spec fn position_of(m: Seq<(Seq<char>, NetIoCounters)>, name: Seq<char>) -> Option<int>
    decreases m.len(),
{
    if m.len() == 0 {
        None
    } else if m[0].0 == name {
        Some(0)
    } else {
        match position_of(m.drop_first(), name) {
            Some(k) => Some(k + 1),
            None => None,
        }
    }
}

/// No two entries share a name.
pub open spec fn names_unique(m: Seq<(Seq<char>, NetIoCounters)>) -> bool {
    forall|i: int, j: int| 0 <= i < j < m.len() ==> m[i].0 != m[j].0
}

proof fn lemma_position(m: Seq<(Seq<char>, NetIoCounters)>, name: Seq<char>, k: int)
    requires
        0 <= k <= m.len(),
        forall|j: int| 0 <= j < k ==> m[j].0 != name,
        k < m.len() ==> m[k].0 == name,
    ensures
        position_of(m, name) == (if k < m.len() { Some(k) } else { None::<int> }),
    decreases m.len(),
{
    if m.len() > 0 && k > 0 {
        lemma_position(m.drop_first(), name, k - 1);
    }
}

/// Position of the first entry of `m` named `name`.
pub fn find_position(m: &Vec<(String, NetIoCounters)>, name: &String) -> (r: Option<usize>)
    ensures
        match r {
            Some(i) => i < m.len() && position_of(nic_view(m@), name@) == Some(i as int) && nic_view(m@)[i as int].0
                == name@,
            None => position_of(nic_view(m@), name@) is None && forall|j: int|
                0 <= j < m.len() ==> (#[trigger] nic_view(m@)[j]).0 != name@,
        },
{
    let mut i: usize = 0;
    while i < m.len()
        invariant
            i <= m.len(),
            forall|j: int| 0 <= j < i ==> (#[trigger] nic_view(m@)[j]).0 != name@,
        decreases m.len() - i,
    {
        if m[i].0 == *name {
            proof {
                lemma_position(nic_view(m@), name@, i as int);
            }
            return Some(i);
        }
        i = i + 1;
    }
    proof {
        lemma_position(nic_view(m@), name@, m.len() as int);
    }
    None
}

/// The corrected counters of interface `name`, given its raw reading `current`.
/// Only an interface known to both earlier snapshots can be corrected.
pub open spec fn fix_one(
    prev: Seq<(Seq<char>, NetIoCounters)>,
    corrected: Seq<(Seq<char>, NetIoCounters)>,
    name: Seq<char>,
    current: NetIoCounters,
) -> NetIoCounters {
    match (lookup(prev, name), lookup(corrected, name)) {
        (Some(p), Some(c)) => nowrap_counters(p, current, c),
        _ => current,
    }
}

/// Each interface of `current`, in order, with its counters corrected.
pub open spec fn fix_overflow(
    prev: Seq<(Seq<char>, NetIoCounters)>,
    current: Seq<(Seq<char>, NetIoCounters)>,
    corrected: Seq<(Seq<char>, NetIoCounters)>,
) -> Seq<(Seq<char>, NetIoCounters)> {
    current.map_values(|e: (Seq<char>, NetIoCounters)| (e.0, fix_one(prev, corrected, e.0, e.1)))
}

/// The counters of the first entry of `m` named `name`.
pub fn find_counters(m: &Vec<(String, NetIoCounters)>, name: &String) -> (r: Option<NetIoCounters>)
    ensures
        r == lookup(nic_view(m@), name@),
{
    let mut i: usize = 0;
    assert(nic_view(m@).subrange(0, m.len() as int) == nic_view(m@));
    while i < m.len()
        invariant
            i <= m.len(),
            lookup(nic_view(m@), name@) == lookup(nic_view(m@).subrange(i as int, m.len() as int), name@),
        decreases m.len() - i,
    {
        let ghost rest = nic_view(m@).subrange(i as int, m.len() as int);
        assert(rest.drop_first() == nic_view(m@).subrange(i + 1, m.len() as int));
        if m[i].0 == *name {
            return Some(m[i].1);
        }
        i = i + 1;
    }
    None
}

/// Copies a snapshot entry by entry.
pub fn copy_snapshot(m: &Vec<(String, NetIoCounters)>) -> (r: Vec<(String, NetIoCounters)>)
    ensures
        nic_view(r@) == nic_view(m@),
{
    let mut r: Vec<(String, NetIoCounters)> = Vec::new();
    let mut i: usize = 0;
    while i < m.len()
        invariant
            i <= m.len(),
            nic_view(r@) == nic_view(m@).subrange(0, i as int),
        decreases m.len() - i,
    {
        let ghost before = r@;
        r.push((m[i].0.clone(), m[i].1));
        proof {
            lemma_nic_view_push(before, r@.last());
        }
        assert(nic_view(r@) =~= nic_view(m@).subrange(0, i + 1));
        i = i + 1;
    }
    assert(nic_view(m@).subrange(0, m.len() as int) == nic_view(m@));
    r
}

/// Corrects every interface of `current` against the earlier raw and corrected snapshots.
pub fn fix_io_counter_overflow(
    prev: &Vec<(String, NetIoCounters)>,
    current: &Vec<(String, NetIoCounters)>,
    corrected: &Vec<(String, NetIoCounters)>,
) -> (r: Vec<(String, NetIoCounters)>)
    ensures
        nic_view(r@) == fix_overflow(nic_view(prev@), nic_view(current@), nic_view(corrected@)),
{
    let ghost want = fix_overflow(nic_view(prev@), nic_view(current@), nic_view(corrected@));
    let mut r: Vec<(String, NetIoCounters)> = Vec::new();
    let mut i: usize = 0;
    while i < current.len()
        invariant
            i <= current.len(),
            want == fix_overflow(nic_view(prev@), nic_view(current@), nic_view(corrected@)),
            nic_view(r@) == want.subrange(0, i as int),
        decreases current.len() - i,
    {
        let name = &current[i].0;
        let now = current[i].1;
        let fixed = match (find_counters(prev, name), find_counters(corrected, name)) {
            (Some(p), Some(c)) => nowrap_struct(&p, &now, &c),
            _ => now,
        };
        let ghost before = r@;
        r.push((name.clone(), fixed));
        proof {
            lemma_nic_view_push(before, r@.last());
        }
        assert(nic_view(r@) =~= want.subrange(0, i + 1));
        i = i + 1;
    }
    assert(want.subrange(0, current.len() as int) == want);
    r
}


/// Sum, modulo 2^64, of the counters of every entry.
pub open spec fn total(s: Seq<(Seq<char>, NetIoCounters)>) -> NetIoCounters
    decreases s.len(),
{
    if s.len() == 0 {
        zero_counters()
    } else {
        counters_add(total(s.drop_last()), s.last().1)
    }
}

/// The entries of `s` named `name`, in order.
pub open spec fn entries_named(s: Seq<(Seq<char>, NetIoCounters)>, name: Seq<char>) -> Seq<
    (Seq<char>, NetIoCounters),
>
    decreases s.len(),
{
    if s.len() == 0 {
        Seq::empty()
    } else if s.last().0 == name {
        entries_named(s.drop_last(), name).push(s.last())
    } else {
        entries_named(s.drop_last(), name)
    }
}

/// What a poll returns for the raw reading `current`, given what the collector
/// held before: the reading itself on the first poll, the corrected reading after.
pub open spec fn corrected_poll(
    prior: Option<(Seq<(Seq<char>, NetIoCounters)>, Seq<(Seq<char>, NetIoCounters)>)>,
    current: Seq<(Seq<char>, NetIoCounters)>,
) -> Seq<(Seq<char>, NetIoCounters)> {
    match prior {
        None => current,
        Some((raw, corrected)) => fix_overflow(raw, current, corrected),
    }
}

/// The last raw snapshot and the last corrected snapshot, always replaced together.
#[derive(Debug)]
pub struct Snapshots {
    raw: Vec<(String, NetIoCounters)>,
    corrected: Vec<(String, NetIoCounters)>,
}

/// Keeps the snapshots of the previous poll, to detect kernel counters that
/// wrapped around and to correct the readings that follow.
#[derive(Debug)]
pub struct NetIoCountersCollector {
    prior: Option<Snapshots>,
}

impl View for NetIoCountersCollector {
    type V = Option<(Seq<(Seq<char>, NetIoCounters)>, Seq<(Seq<char>, NetIoCounters)>)>;

    closed spec fn view(&self) -> Self::V {
        match self.prior {
            None => None,
            Some(s) => Some((nic_view(s.raw@), nic_view(s.corrected@))),
        }
    }
}

impl Default for NetIoCountersCollector {
    fn default() -> (r: NetIoCountersCollector)
        ensures
            r@ is None,
    {
        NetIoCountersCollector::new()
    }
}

impl NetIoCountersCollector {
    /// A collector that has seen no poll yet.
    pub fn new() -> (r: NetIoCountersCollector)
        ensures
            r@ is None,
    {
        NetIoCountersCollector { prior: None }
    }

    /// Corrects the raw reading `current` and keeps it, with its correction,
    /// for the next poll.
    pub fn normalize(&mut self, current: Vec<(String, NetIoCounters)>) -> (r: Vec<(String, NetIoCounters)>)
        ensures
            nic_view(r@) == corrected_poll(old(self)@, nic_view(current@)),
            final(self)@ == Some((nic_view(current@), nic_view(r@))),
    {
        let corrected = match &self.prior {
            Some(s) => fix_io_counter_overflow(&s.raw, &current, &s.corrected),
            None => copy_snapshot(&current),
        };
        let kept = copy_snapshot(&corrected);
        self.prior = Some(Snapshots { raw: current, corrected: kept });
        corrected
    }

    /// Reads the counter table `table` and returns the corrected counters of
    /// each interface. A table that does not parse leaves the collector as it was.
    pub fn net_io_counters_pernic(&mut self, table: &str) -> (r: Result<Vec<(String, NetIoCounters)>, Error>)
        ensures
            match r {
                Ok(m) => net_table(table@) is Some
                    && nic_view(m@) == corrected_poll(old(self)@, net_table(table@).unwrap())
                    && final(self)@ == Some((net_table(table@).unwrap(), nic_view(m@))),
                Err(e) => net_table(table@) is None && final(self)@ == old(self)@,
            },
    {
        match parse_net_dev(table) {
            Ok(current) => Ok(self.normalize(current)),
            Err(e) => Err(e),
        }
    }

    /// As `net_io_counters_pernic`, for the interface `name` alone: the other
    /// interfaces of the table are neither returned nor kept.
    pub fn this_net_io_counters_pernic(&mut self, name: &str, table: &str) -> (r: Result<
        Vec<(String, NetIoCounters)>,
        Error,
    >)
        ensures
            match r {
                Ok(m) => net_table(table@) is Some && {
                    let mine = entries_named(net_table(table@).unwrap(), name@);
                    &&& nic_view(m@) == corrected_poll(old(self)@, mine)
                    &&& final(self)@ == Some((mine, nic_view(m@)))
                },
                Err(e) => net_table(table@) is None && final(self)@ == old(self)@,
            },
    {
        match parse_net_dev(table) {
            Ok(all) => {
                let mine = keep_named(&all, name);
                Ok(self.normalize(mine))
            },
            Err(e) => Err(e),
        }
    }

    /// The corrected counters of all interfaces, summed.
    pub fn net_io_counters(&mut self, table: &str) -> (r: Result<NetIoCounters, Error>)
        ensures
            match r {
                Ok(c) => net_table(table@) is Some && {
                    let m = corrected_poll(old(self)@, net_table(table@).unwrap());
                    &&& c == total(m)
                    &&& final(self)@ == Some((net_table(table@).unwrap(), m))
                },
                Err(e) => net_table(table@) is None && final(self)@ == old(self)@,
            },
    {
        match self.net_io_counters_pernic(table) {
            Ok(m) => Ok(sum_counters(&m)),
            Err(e) => Err(e),
        }
    }

    /// The corrected counters of the interface `name`, summed over its entries.
    pub fn this_net_io_counters(&mut self, name: &str, table: &str) -> (r: Result<NetIoCounters, Error>)
        ensures
            match r {
                Ok(c) => net_table(table@) is Some && {
                    let mine = entries_named(net_table(table@).unwrap(), name@);
                    let m = corrected_poll(old(self)@, mine);
                    &&& c == total(m)
                    &&& final(self)@ == Some((mine, m))
                },
                Err(e) => net_table(table@) is None && final(self)@ == old(self)@,
            },
    {
        match self.this_net_io_counters_pernic(name, table) {
            Ok(m) => Ok(sum_counters(&m)),
            Err(e) => Err(e),
        }
    }
}

/// The sum of the counters of every entry.
pub fn sum_counters(m: &Vec<(String, NetIoCounters)>) -> (r: NetIoCounters)
    ensures
        r == total(nic_view(m@)),
{
    let mut acc = NetIoCounters::zero();
    let mut i: usize = 0;
    while i < m.len()
        invariant
            i <= m.len(),
            acc == total(nic_view(m@).subrange(0, i as int)),
        decreases m.len() - i,
    {
        assert(nic_view(m@).subrange(0, i + 1).drop_last() == nic_view(m@).subrange(0, i as int));
        acc = acc.plus(&m[i].1);
        i = i + 1;
    }
    assert(nic_view(m@).subrange(0, i as int) == nic_view(m@));
    acc
}

/// The entries of `m` named `name`, copied in order.
pub fn keep_named(m: &Vec<(String, NetIoCounters)>, name: &str) -> (r: Vec<(String, NetIoCounters)>)
    ensures
        nic_view(r@) == entries_named(nic_view(m@), name@),
{
    let mut r: Vec<(String, NetIoCounters)> = Vec::new();
    let mut i: usize = 0;
    while i < m.len()
        invariant
            i <= m.len(),
            nic_view(r@) == entries_named(nic_view(m@).subrange(0, i as int), name@),
        decreases m.len() - i,
    {
        assert(nic_view(m@).subrange(0, i + 1).drop_last() == nic_view(m@).subrange(0, i as int));
        if crate::text::same_text(m[i].0.as_str(), name) {
            let ghost before = r@;
            r.push((m[i].0.clone(), m[i].1));
            proof {
                lemma_nic_view_push(before, r@.last());
            }
        }
        i = i + 1;
    }
    assert(nic_view(m@).subrange(0, i as int) == nic_view(m@));
    r
}

/// On a first poll the reading comes back unchanged. On a later one, an
/// interface known to both earlier snapshots whose counters have not fallen
/// gets the earlier corrected counters plus exactly what each counter rose by.
pub proof fn lemma_poll_adds_delta(
    raw: Seq<(Seq<char>, NetIoCounters)>,
    corrected: Seq<(Seq<char>, NetIoCounters)>,
    current: Seq<(Seq<char>, NetIoCounters)>,
    i: int,
)
    requires
        0 <= i < current.len(),
        lookup(raw, current[i].0) is Some,
        lookup(corrected, current[i].0) is Some,
        counters_at_least(current[i].1, lookup(raw, current[i].0).unwrap()),
    ensures
        corrected_poll(None, current) == current,
        corrected_poll(Some((raw, corrected)), current)[i] == (
            current[i].0,
            counters_add(
                lookup(corrected, current[i].0).unwrap(),
                counters_sub(current[i].1, lookup(raw, current[i].0).unwrap()),
            ),
        ),
{
    let name = current[i].0;
    let p = lookup(raw, name).unwrap();
    let c = lookup(corrected, name).unwrap();
    let n = current[i].1;
    lemma_nowrap_rise(p.bytes_sent, n.bytes_sent, c.bytes_sent);
    lemma_nowrap_rise(p.bytes_recv, n.bytes_recv, c.bytes_recv);
    lemma_nowrap_rise(p.packets_sent, n.packets_sent, c.packets_sent);
    lemma_nowrap_rise(p.packets_recv, n.packets_recv, c.packets_recv);
    lemma_nowrap_rise(p.err_in, n.err_in, c.err_in);
    lemma_nowrap_rise(p.err_out, n.err_out, c.err_out);
    lemma_nowrap_rise(p.drop_in, n.drop_in, c.drop_in);
    lemma_nowrap_rise(p.drop_out, n.drop_out, c.drop_out);
    assert(fix_overflow(raw, current, corrected)[i] == (name, fix_one(raw, corrected, name, n)));
    assert(fix_one(raw, corrected, name, n) == nowrap_counters(p, n, c));
}

/// A raw counter that falls from 4294967290 to 5 has wrapped once, having
/// moved by 10: the corrected counter grows by 10, modulo 2^64. Shown on one
/// counter in a poll; the others are corrected on their own alike.
pub proof fn lemma_wraparound_adds_ten(
    raw: Seq<(Seq<char>, NetIoCounters)>,
    corrected: Seq<(Seq<char>, NetIoCounters)>,
    current: Seq<(Seq<char>, NetIoCounters)>,
    i: int,
)
    requires
        0 <= i < current.len(),
        lookup(raw, current[i].0) is Some,
        lookup(corrected, current[i].0) is Some,
        lookup(raw, current[i].0).unwrap().bytes_recv == 4294967290,
        current[i].1.bytes_recv == 5,
    ensures
        ({
            let before = lookup(corrected, current[i].0).unwrap().bytes_recv;
            let after = corrected_poll(Some((raw, corrected)), current)[i].1.bytes_recv;
            &&& after == wrap(before + 10)
            &&& before + 10 <= u64::MAX ==> after == before + 10
        }),
{
    let name = current[i].0;
    assert(fix_overflow(raw, current, corrected)[i] == (name, fix_one(raw, corrected, name, current[i].1)));
}

proof fn lemma_nowrap_rise(prev: u64, current: u64, corrected: u64)
    requires
        current >= prev,
    ensures
        nowrap_value(prev, current, corrected) == wrap(corrected + wrap(current - prev)),
{
    assert(wrap(current - prev) == current - prev);
}

/// Every counter of `a` is at least the matching counter of `b`.
pub open spec fn counters_at_least(a: NetIoCounters, b: NetIoCounters) -> bool {
    &&& a.bytes_sent >= b.bytes_sent
    &&& a.bytes_recv >= b.bytes_recv
    &&& a.packets_sent >= b.packets_sent
    &&& a.packets_recv >= b.packets_recv
    &&& a.err_in >= b.err_in
    &&& a.err_out >= b.err_out
    &&& a.drop_in >= b.drop_in
    &&& a.drop_out >= b.drop_out
}

} // verus!
