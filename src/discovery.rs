use vstd::prelude::*;

use crate::address::{is_public_ipv4_address, is_public_v4, IpAddress};

verus! {

/// One reply observed while probing at a TTL: the responding address, its
/// round-trip time in nanoseconds, and whether the engine flagged it as the
/// final hop.
#[derive(Clone, Copy, Debug, PartialEq, Eq, Structural)]
pub struct TraceReply {
    pub addr: IpAddress,
    pub rtt_nanos: u64,
    pub last: bool,
}

/// The round-trip times collected from one address at one TTL, in arrival order.
#[derive(Debug)]
pub struct HopRow {
    pub addr: IpAddress,
    pub rtts: Vec<u64>,
}

/// What is reported for one TTL: the responding addresses in order of first
/// appearance, and the number of probe slots that got no reply.
#[derive(Debug)]
pub struct HopReport {
    pub ttl: u8,
    pub rows: Vec<HopRow>,
    pub missing: usize,
}

/// The result of a hop search.
#[derive(Clone, Copy, Debug, PartialEq, Eq, Structural)]
pub enum DiscoveryOutcome {
    Found(IpAddress),
    Exhausted,
}

/// Rows as pairs of address and round-trip times.
pub open spec fn rows_view(rows: Seq<HopRow>) -> Seq<(IpAddress, Seq<u64>)> {
    rows.map_values(|r: HopRow| (r.addr, r.rtts@))
}

pub open spec fn has_addr(rows: Seq<(IpAddress, Seq<u64>)>, a: IpAddress) -> bool {
    exists|i: int| 0 <= i < rows.len() && rows[i].0 == a
}

pub open spec fn distinct_addrs(rows: Seq<(IpAddress, Seq<u64>)>) -> bool {
    forall|i: int, j: int| 0 <= i < rows.len() && 0 <= j < rows.len() && i != j ==> rows[i].0 != rows[j].0
}

/// Adds a round-trip time under its address: appended to the address's row
/// when there is one, else as a new last row.
pub open spec fn record_rtt(rows: Seq<(IpAddress, Seq<u64>)>, a: IpAddress, rtt: u64) -> Seq<(IpAddress, Seq<u64>)> {
    if has_addr(rows, a) {
        let i = choose|i: int| 0 <= i < rows.len() && rows[i].0 == a;
        rows.update(i, (a, rows[i].1.push(rtt)))
    } else {
        rows.push((a, seq![rtt]))
    }
}

/// The replies of one TTL grouped by address, in order of first appearance.
pub open spec fn group(replies: Seq<TraceReply>) -> Seq<(IpAddress, Seq<u64>)>
    decreases replies.len(),
{
    if replies.len() == 0 {
        Seq::empty()
    } else {
        let r = replies.last();
        record_rtt(group(replies.drop_last()), r.addr, r.rtt_nanos)
    }
}

/// The number of round-trip times over all rows.
pub open spec fn total_rtts(rows: Seq<(IpAddress, Seq<u64>)>) -> int
    decreases rows.len(),
{
    if rows.len() == 0 {
        0
    } else {
        total_rtts(rows.drop_last()) + rows.last().1.len()
    }
}

/// The placeholders shown for probe slots without a reply.
pub open spec fn missing_slots(probes: int, replies: int) -> int {
    if replies < probes {
        probes - replies
    } else {
        0
    }
}

proof fn lemma_total_update(rows: Seq<(IpAddress, Seq<u64>)>, i: int, v: (IpAddress, Seq<u64>))
    requires
        0 <= i < rows.len(),
    ensures
        total_rtts(rows.update(i, v)) == total_rtts(rows) - rows[i].1.len() + v.1.len(),
    decreases rows.len(),
{
    let u = rows.update(i, v);
    if i == rows.len() - 1 {
        assert(u.drop_last() =~= rows.drop_last());
    } else {
        assert(u.drop_last() =~= rows.drop_last().update(i, v));
        lemma_total_update(rows.drop_last(), i, v);
    }
}

proof fn lemma_record_rtt(rows: Seq<(IpAddress, Seq<u64>)>, a: IpAddress, rtt: u64)
    requires
        distinct_addrs(rows),
    ensures
        distinct_addrs(record_rtt(rows, a, rtt)),
        has_addr(record_rtt(rows, a, rtt), a),
        total_rtts(record_rtt(rows, a, rtt)) == total_rtts(rows) + 1,
        forall|b: IpAddress| has_addr(rows, b) ==> has_addr(record_rtt(rows, a, rtt), b),
{
    let n = record_rtt(rows, a, rtt);
    if has_addr(rows, a) {
        let i = choose|i: int| 0 <= i < rows.len() && rows[i].0 == a;
        lemma_total_update(rows, i, (a, rows[i].1.push(rtt)));
        assert(n[i].0 == a);
        assert forall|b: IpAddress| has_addr(rows, b) implies has_addr(n, b) by {
            let j = choose|j: int| 0 <= j < rows.len() && rows[j].0 == b;
            assert(n[j].0 == b);
        }
    } else {
        assert(n.drop_last() =~= rows);
        assert(n[rows.len() as int].0 == a);
        assert forall|b: IpAddress| has_addr(rows, b) implies has_addr(n, b) by {
            let j = choose|j: int| 0 <= j < rows.len() && rows[j].0 == b;
            assert(n[j].0 == b);
        }
    }
}

/// Grouping keeps every reply: the rows of a batch hold as many round-trip
/// times as the batch has replies, under distinct addresses.
pub proof fn lemma_group_counts(replies: Seq<TraceReply>)
    ensures
        total_rtts(group(replies)) == replies.len(),
        distinct_addrs(group(replies)),
    decreases replies.len(),
{
    if replies.len() > 0 {
        lemma_group_counts(replies.drop_last());
        let r = replies.last();
        lemma_record_rtt(group(replies.drop_last()), r.addr, r.rtt_nanos);
    }
}

/// The round-trip times of the replies from `a`, in arrival order.
pub open spec fn rtts_from(replies: Seq<TraceReply>, a: IpAddress) -> Seq<u64>
    decreases replies.len(),
{
    if replies.len() == 0 {
        Seq::empty()
    } else if replies.last().addr == a {
        rtts_from(replies.drop_last(), a).push(replies.last().rtt_nanos)
    } else {
        rtts_from(replies.drop_last(), a)
    }
}

/// Grouping keeps the order of arrival: each row holds exactly the
/// round-trip times of the replies from its address, in the order they came,
/// and an address with no row sent no reply.
pub proof fn lemma_group_keeps_order(replies: Seq<TraceReply>)
    ensures
        forall|i: int| 0 <= i < group(replies).len() ==> (#[trigger] group(replies)[i]).1 == rtts_from(replies, group(replies)[i].0),
        forall|a: IpAddress| !has_addr(group(replies), a) ==> rtts_from(replies, a).len() == 0,
    decreases replies.len(),
{
    if replies.len() > 0 {
        let pre = replies.drop_last();
        let r = replies.last();
        lemma_group_keeps_order(pre);
        lemma_group_counts(pre);
        lemma_record_rtt(group(pre), r.addr, r.rtt_nanos);
        let g = group(pre);
        let n = group(replies);
        assert(n == record_rtt(g, r.addr, r.rtt_nanos));
        if has_addr(g, r.addr) {
            let k = choose|k: int| 0 <= k < g.len() && g[k].0 == r.addr;
            assert forall|i: int| 0 <= i < n.len() implies (#[trigger] n[i]).1 == rtts_from(replies, n[i].0) by {
                if i != k {
                    assert(n[i] == g[i]);
                    assert(g[i].0 != r.addr);
                }
            }
        } else {
            assert forall|i: int| 0 <= i < n.len() implies (#[trigger] n[i]).1 == rtts_from(replies, n[i].0) by {
                if i < g.len() {
                    assert(n[i] == g[i]);
                    assert(g[i].0 != r.addr);
                } else {
                    assert(rtts_from(pre, r.addr).len() == 0);
                    assert(rtts_from(replies, r.addr) =~= seq![r.rtt_nanos]);
                }
            }
        }
        assert forall|a: IpAddress| !has_addr(n, a) implies rtts_from(replies, a).len() == 0 by {
            assert(!has_addr(g, a));
        }
    }
}

/// A report pads to the batch size: with `k` of `n` probes answered
/// (`k <= n`), its rows and its placeholders make exactly `n` entries.
pub proof fn lemma_report_entries(replies: Seq<TraceReply>, probes: int)
    requires
        replies.len() <= probes,
    ensures
        total_rtts(group(replies)) + missing_slots(probes, replies.len() as int) == probes,
{
    lemma_group_counts(replies);
}

/// The batch of replies gathered at `ttl` in a trace whose entry `t - 1`
/// holds the replies at TTL `t`; a TTL past the end got no reply.
pub open spec fn batch_at(trace: Seq<Seq<TraceReply>>, ttl: int) -> Seq<TraceReply> {
    if 1 <= ttl <= trace.len() {
        trace[ttl - 1]
    } else {
        Seq::empty()
    }
}

/// The address of the first reply of a batch that is publicly routable.
pub open spec fn first_public(batch: Seq<TraceReply>) -> Option<IpAddress>
    decreases batch.len(),
{
    if batch.len() == 0 {
        None
    } else if is_public_v4(batch[0].addr) {
        Some(batch[0].addr)
    } else {
        first_public(batch.drop_first())
    }
}

/// The replies of a batch that the search takes in: all of them, or those up
/// to and including the first publicly routable one.
pub open spec fn consumed(batch: Seq<TraceReply>) -> Seq<TraceReply>
    decreases batch.len(),
{
    if batch.len() == 0 {
        batch
    } else if is_public_v4(batch[0].addr) {
        seq![batch[0]]
    } else {
        seq![batch[0]] + consumed(batch.drop_first())
    }
}

/// Some reply of the batch is the final hop or comes from the reference address.
pub open spec fn ends_path(reference: IpAddress, batch: Seq<TraceReply>) -> bool {
    exists|i: int| 0 <= i < batch.len() && (batch[i].last || batch[i].addr == reference)
}

/// The search from `ttl` on: its outcome, and the last TTL it examined.
pub open spec fn search_from(reference: IpAddress, limit: int, trace: Seq<Seq<TraceReply>>, ttl: int) -> (DiscoveryOutcome, int)
    decreases limit + 1 - ttl,
{
    if ttl > limit {
        (DiscoveryOutcome::Exhausted, ttl - 1)
    } else {
        let batch = batch_at(trace, ttl);
        match first_public(batch) {
            Some(a) => (DiscoveryOutcome::Found(a), ttl),
            None => if ends_path(reference, batch) {
                (DiscoveryOutcome::Exhausted, ttl)
            } else {
                search_from(reference, limit, trace, ttl + 1)
            },
        }
    }
}

/// The whole search, from TTL 1.
pub open spec fn search(reference: IpAddress, limit: int, trace: Seq<Seq<TraceReply>>) -> (DiscoveryOutcome, int) {
    search_from(reference, limit, trace, 1)
}

pub open spec fn trace_view(trace: Seq<Vec<TraceReply>>) -> Seq<Seq<TraceReply>> {
    trace.map_values(|b: Vec<TraceReply>| b@)
}

proof fn lemma_first_public_at(batch: Seq<TraceReply>, j: int)
    requires
        0 <= j < batch.len(),
        is_public_v4(batch[j].addr),
        forall|k: int| 0 <= k < j ==> !is_public_v4(#[trigger] batch[k].addr),
    ensures
        first_public(batch) == Some(batch[j].addr),
        consumed(batch) == batch.take(j + 1),
    decreases j,
{
    if j > 0 {
        let rest = batch.drop_first();
        assert forall|k: int| 0 <= k < j - 1 implies !is_public_v4(#[trigger] rest[k].addr) by {
            assert(rest[k] == batch[k + 1]);
        }
        lemma_first_public_at(rest, j - 1);
        assert(seq![batch[0]] + rest.take(j) =~= batch.take(j + 1));
    } else {
        assert(seq![batch[0]] =~= batch.take(1));
    }
}

proof fn lemma_no_public(batch: Seq<TraceReply>)
    requires
        forall|k: int| 0 <= k < batch.len() ==> !is_public_v4(#[trigger] batch[k].addr),
    ensures
        first_public(batch) == None::<IpAddress>,
        consumed(batch) == batch,
    decreases batch.len(),
{
    if batch.len() > 0 {
        let rest = batch.drop_first();
        assert forall|k: int| 0 <= k < rest.len() implies !is_public_v4(#[trigger] rest[k].addr) by {
            assert(rest[k] == batch[k + 1]);
        }
        lemma_no_public(rest);
        assert(seq![batch[0]] + rest =~= batch);
    }
}

/// A TTL with no public reply and no end of path passes the search on to the next one.
pub open spec fn passes(reference: IpAddress, trace: Seq<Seq<TraceReply>>, ttl: int) -> bool {
    first_public(batch_at(trace, ttl)) == None::<IpAddress> && !ends_path(reference, batch_at(trace, ttl))
}

proof fn lemma_search_skips(reference: IpAddress, limit: int, trace: Seq<Seq<TraceReply>>, from: int, to: int)
    requires
        from <= to <= limit + 1,
        forall|s: int| from <= s < to ==> passes(reference, trace, s),
    ensures
        search_from(reference, limit, trace, from) == search_from(reference, limit, trace, to),
    decreases to - from,
{
    if from < to {
        assert(passes(reference, trace, from));
        lemma_search_skips(reference, limit, trace, from + 1, to);
    }
}

/// When the first TTL with a publicly routable reply is `ttl` (within the
/// limit), and no earlier TTL reached the end of the path, the search returns
/// that TTL's first public address and examines no TTL after it.
pub proof fn lemma_finds_first_public(reference: IpAddress, limit: int, trace: Seq<Seq<TraceReply>>, ttl: int)
    requires
        1 <= ttl <= limit,
        first_public(batch_at(trace, ttl)) is Some,
        forall|s: int| 1 <= s < ttl ==> passes(reference, trace, s),
    ensures
        search(reference, limit, trace) == (DiscoveryOutcome::Found(first_public(batch_at(trace, ttl))->0), ttl),
{
    lemma_search_skips(reference, limit, trace, 1, ttl);
}

/// When no TTL up to the limit has a publicly routable reply, and none before
/// the limit reached the end of the path, the search finds nothing after
/// examining exactly `limit` TTLs.
pub proof fn lemma_exhausts_at_limit(reference: IpAddress, limit: int, trace: Seq<Seq<TraceReply>>)
    requires
        1 <= limit,
        forall|s: int, k: int|
            1 <= s <= limit && 0 <= k < batch_at(trace, s).len() ==> !is_public_v4(#[trigger] batch_at(trace, s)[k].addr),
        forall|s: int| 1 <= s < limit ==> !ends_path(reference, #[trigger] batch_at(trace, s)),
    ensures
        search(reference, limit, trace) == (DiscoveryOutcome::Exhausted, limit),
{
    assert forall|s: int| 1 <= s <= limit implies first_public(#[trigger] batch_at(trace, s)) == None::<IpAddress> by {
        lemma_no_public(batch_at(trace, s));
    }
    assert forall|s: int| 1 <= s < limit implies passes(reference, trace, s) by {
        assert(first_public(batch_at(trace, s)) == None::<IpAddress>);
        assert(!ends_path(reference, batch_at(trace, s)));
    }
    lemma_search_skips(reference, limit, trace, 1, limit);
    assert(first_public(batch_at(trace, limit)) == None::<IpAddress>);
    assert(search_from(reference, limit, trace, limit + 1) == (DiscoveryOutcome::Exhausted, limit));
}

/// The state of a TTL-by-TTL search for the first publicly routable hop on
/// the path toward `reference`.
pub struct HopSearch {
    pub reference: IpAddress,
    pub probes: usize,
    pub limit: u8,
    pub ttl: u16,
    pub terminal: bool,
    pub attempt: Vec<HopRow>,
    pub replies: usize,
    pub seen: Ghost<Seq<TraceReply>>,
}

impl HopSearch {
    /// The rows gathered at the current TTL group the replies seen there.
    pub open spec fn wf(&self) -> bool {
        &&& 1 <= self.ttl <= self.limit + 1
        &&& self.replies == self.seen@.len()
        &&& rows_view(self.attempt@) == group(self.seen@)
    }

    /// The search goes on: the path has not ended and the limit is not passed.
    pub open spec fn probing(&self) -> bool {
        !self.terminal && self.ttl <= self.limit
    }

    /// Starts a search at TTL 1.
    pub fn new(reference: IpAddress, probes: usize, limit: u8) -> (r: HopSearch)
        ensures
            r.wf(),
            r.reference == reference,
            r.probes == probes,
            r.limit == limit,
            r.ttl == 1,
            !r.terminal,
            r.seen@.len() == 0,
    {
        let r = HopSearch {
            reference,
            probes,
            limit,
            ttl: 1,
            terminal: false,
            attempt: Vec::new(),
            replies: 0,
            seen: Ghost(Seq::empty()),
        };
        proof {
            assert(rows_view(r.attempt@) =~= group(r.seen@));
        }
        r
    }

    /// The TTL to probe next: none once the path has ended or the limit is passed.
    pub fn current_ttl(&self) -> (r: Option<u8>)
        requires
            self.wf(),
        ensures
            r == (if self.probing() { Some(self.ttl as u8) } else { None::<u8> }),
    {
        if !self.terminal && self.ttl <= self.limit as u16 {
            Some(self.ttl as u8)
        } else {
            None
        }
    }

    /// Records a reply at the current TTL. Returns its address when it is a
    /// publicly routable IPv4 address, which ends the search; otherwise the
    /// TTL is marked terminal when the reply is the final hop or comes from
    /// the reference address.
    pub fn observe(&mut self, reply: TraceReply) -> (r: Option<IpAddress>)
        requires
            old(self).wf(),
            old(self).replies < usize::MAX,
        ensures
            final(self).wf(),
            final(self).seen@ == old(self).seen@.push(reply),
            r == (if is_public_v4(reply.addr) { Some(reply.addr) } else { None::<IpAddress> }),
            final(self).terminal == (if is_public_v4(reply.addr) { old(self).terminal } else {
                old(self).terminal || reply.last || reply.addr == old(self).reference
            }),
            final(self).reference == old(self).reference,
            final(self).probes == old(self).probes,
            final(self).limit == old(self).limit,
            final(self).ttl == old(self).ttl,
    {
        self.record(reply);
        let found = is_public_ipv4_address(reply.addr);
        if found.is_none() && (reply.last || reply.addr == self.reference) {
            self.terminal = true;
        }
        found
    }

    /// Closes the current TTL: hands out its report, padded with
    /// placeholders up to the batch size, and moves on to the next TTL.
    pub fn finish_ttl(&mut self) -> (r: HopReport)
        requires
            old(self).wf(),
            old(self).ttl <= old(self).limit,
        ensures
            final(self).wf(),
            r.ttl == old(self).ttl,
            rows_view(r.rows@) == group(old(self).seen@),
            r.missing == missing_slots(old(self).probes as int, old(self).seen@.len() as int),
            final(self).ttl == old(self).ttl + 1,
            final(self).seen@.len() == 0,
            final(self).terminal == old(self).terminal,
            final(self).reference == old(self).reference,
            final(self).probes == old(self).probes,
            final(self).limit == old(self).limit,
    {
        let mut rows: Vec<HopRow> = Vec::new();
        std::mem::swap(&mut rows, &mut self.attempt);
        let missing: usize = if self.replies < self.probes {
            self.probes - self.replies
        } else {
            0
        };
        let ttl = self.ttl as u8;
        self.ttl = self.ttl + 1;
        self.replies = 0;
        self.seen = Ghost(Seq::empty());
        proof {
            assert(rows_view(self.attempt@) =~= group(self.seen@));
        }
        HopReport { ttl, rows, missing }
    }

    fn find_row(&self, addr: IpAddress) -> (r: Option<usize>)
        ensures
            match r {
                Some(i) => i < self.attempt.len() && self.attempt@[i as int].addr == addr,
                None => forall|j: int| 0 <= j < self.attempt.len() ==> self.attempt@[j].addr != addr,
            },
    {
        let mut i: usize = 0;
        while i < self.attempt.len()
            invariant
                i <= self.attempt.len(),
                forall|j: int| 0 <= j < i ==> self.attempt@[j].addr != addr,
            decreases self.attempt.len() - i,
        {
            if self.attempt[i].addr == addr {
                return Some(i);
            }
            i += 1;
        }
        None
    }

    fn record(&mut self, reply: TraceReply)
        requires
            old(self).wf(),
            old(self).replies < usize::MAX,
        ensures
            final(self).wf(),
            final(self).seen@ == old(self).seen@.push(reply),
            final(self).reference == old(self).reference,
            final(self).probes == old(self).probes,
            final(self).limit == old(self).limit,
            final(self).ttl == old(self).ttl,
            final(self).terminal == old(self).terminal,
    {
        let ghost before = rows_view(self.attempt@);
        let ghost seen2 = self.seen@.push(reply);
        proof {
            lemma_group_counts(self.seen@);
            assert(seen2.drop_last() =~= self.seen@);
        }
        let pos = self.find_row(reply.addr);
        if let Some(i) = pos {
            proof {
                assert(before[i as int].0 == reply.addr);
                assert(has_addr(before, reply.addr));
                let k = choose|k: int| 0 <= k < before.len() && before[k].0 == reply.addr;
                assert(k == i);
            }
            self.attempt[i].rtts.push(reply.rtt_nanos);
            proof {
                assert(rows_view(self.attempt@) =~= record_rtt(before, reply.addr, reply.rtt_nanos));
            }
        } else {
            proof {
                assert(!has_addr(before, reply.addr));
            }
            let mut rtts: Vec<u64> = Vec::new();
            rtts.push(reply.rtt_nanos);
            self.attempt.push(HopRow { addr: reply.addr, rtts });
            proof {
                assert(rows_view(self.attempt@) =~= record_rtt(before, reply.addr, reply.rtt_nanos));
            }
        }
        self.replies = self.replies + 1;
        self.seen = Ghost(seen2);
    }
}

/// The report of TTL `ttl`: the replies that the search took in there,
/// grouped by address and padded to the batch size.
pub open spec fn reported(r: HopReport, probes: usize, trace: Seq<Seq<TraceReply>>, ttl: int) -> bool {
    let taken = consumed(batch_at(trace, ttl));
    &&& r.ttl == ttl
    &&& rows_view(r.rows@) == group(taken)
    &&& r.missing == missing_slots(probes as int, taken.len() as int)
}

/// A finished search: its outcome and the report of each TTL it examined.
#[derive(Debug)]
pub struct SearchRun {
    pub outcome: DiscoveryOutcome,
    pub reports: Vec<HopReport>,
}

/// Runs the search over a recorded trace, whose entry `t - 1` holds the
/// replies gathered at TTL `t`. The TTL on which a public address turns up is
/// reported too, up to that reply.
pub fn discover(reference: IpAddress, probes: usize, limit: u8, trace: &Vec<Vec<TraceReply>>) -> (r: SearchRun)
    ensures
        r.outcome == search(reference, limit as int, trace_view(trace@)).0,
        r.reports.len() == search(reference, limit as int, trace_view(trace@)).1,
        forall|i: int| 0 <= i < r.reports.len() ==> reported(#[trigger] r.reports@[i], probes, trace_view(trace@), i + 1),
{
    let ghost tv = trace_view(trace@);
    let ghost whole = search(reference, limit as int, tv);
    let mut hs = HopSearch::new(reference, probes, limit);
    let mut reports: Vec<HopReport> = Vec::new();
    loop
        invariant
            hs.wf(),
            hs.reference == reference,
            hs.probes == probes,
            hs.limit == limit,
            hs.seen@.len() == 0,
            tv == trace_view(trace@),
            whole == search(reference, limit as int, tv),
            reports.len() == hs.ttl - 1,
            forall|i: int| 0 <= i < reports.len() ==> reported(#[trigger] reports@[i], probes, tv, i + 1),
            whole == (if hs.probing() {
                search_from(reference, limit as int, tv, hs.ttl as int)
            } else {
                (DiscoveryOutcome::Exhausted, hs.ttl - 1)
            }),
        decreases limit + 1 - hs.ttl,
    {
        let ttl = match hs.current_ttl() {
            Some(t) => t,
            None => {
                return SearchRun { outcome: DiscoveryOutcome::Exhausted, reports };
            },
        };
        let ghost batch = batch_at(tv, ttl as int);
        let blen: usize = if (ttl as usize) <= trace.len() {
            trace[ttl as usize - 1].len()
        } else {
            0
        };
        proof {
            assert(!hs.terminal);
            assert(blen == batch.len());
            assert(batch.take(0) =~= hs.seen@);
        }
        let mut j: usize = 0;
        while j < blen
            invariant
                hs.wf(),
                hs.reference == reference,
                hs.probes == probes,
                hs.limit == limit,
                hs.ttl == ttl,
                1 <= ttl <= limit,
                tv == trace_view(trace@),
                batch == batch_at(tv, ttl as int),
                whole == search_from(reference, limit as int, tv, ttl as int),
                whole == search(reference, limit as int, tv),
                blen == batch.len(),
                blen > 0 ==> ttl <= trace.len(),
                j <= blen,
                hs.seen@ == batch.take(j as int),
                hs.terminal == ends_path(reference, batch.take(j as int)),
                forall|k: int| 0 <= k < j ==> !is_public_v4(#[trigger] batch[k].addr),
                reports.len() == hs.ttl - 1,
                forall|i: int| 0 <= i < reports.len() ==> reported(#[trigger] reports@[i], probes, tv, i + 1),
            decreases blen - j,
        {
            let reply = trace[ttl as usize - 1][j];
            proof {
                assert(reply == batch[j as int]);
            }
            let found = hs.observe(reply);
            proof {
                let t1 = batch.take(j as int + 1);
                assert(t1 =~= batch.take(j as int).push(reply));
                if ends_path(reference, batch.take(j as int)) {
                    let w = choose|w: int| 0 <= w < j && (batch.take(j as int)[w].last || batch.take(j as int)[w].addr == reference);
                    assert(t1[w] == batch.take(j as int)[w]);
                }
                if reply.last || reply.addr == reference {
                    assert(t1[j as int] == reply);
                }
            }
            if let Some(a) = found {
                proof {
                    lemma_first_public_at(batch, j as int);
                    assert(first_public(batch) == Some(a));
                    assert(whole == (DiscoveryOutcome::Found(a), ttl as int));
                }
                let report = hs.finish_ttl();
                reports.push(report);
                return SearchRun { outcome: DiscoveryOutcome::Found(a), reports };
            }
            j += 1;
        }
        proof {
            lemma_no_public(batch);
            assert(batch.take(blen as int) =~= batch);
            assert(hs.terminal == ends_path(reference, batch));
            assert(first_public(batch) == None::<IpAddress>);
        }
        let report = hs.finish_ttl();
        reports.push(report);
        proof {
            if !hs.terminal {
                assert(whole == search_from(reference, limit as int, tv, hs.ttl as int));
                if hs.ttl > limit {
                    assert(search_from(reference, limit as int, tv, hs.ttl as int) == (
                    DiscoveryOutcome::Exhausted, hs.ttl - 1));
                }
            }
        }
    }
}

} // verus!
