//! Scan coordination data: the validated configuration, the per-port
//! results, the shared result collection that concurrent probe units
//! append to, and the final ordering of results by port number.

use vstd::prelude::*;

use crate::text::{decimal_of, decimal_u16};

verus! {

broadcast use vstd::seq_lib::group_to_multiset_ensures, vstd::seq_lib::to_multiset_insert;

/// The one fatal error: an inverted port range, rejected before any
/// scanning begins.
#[derive(PartialEq, Eq, Structural, Clone, Copy, Debug)]
pub enum ConfigError {
    InvalidPortRange,
}

impl ConfigError {
    /// The message reported for this error.
    pub fn message(&self) -> (r: String)
        ensures
            r@ == "start port must be less than or equal to end port"@,
    {
        String::from_str("start port must be less than or equal to end port")
    }
}

/// A validated scan configuration, immutable once constructed.
pub struct ScanConfig {
    pub target: String,
    pub start_port: u16,
    pub end_port: u16,
    pub timeout_ms: u64,
}

impl ScanConfig {
    /// The configuration invariant: the range is not inverted.
    pub open spec fn wf(&self) -> bool {
        self.start_port <= self.end_port
    }

    /// Validates a configuration: accepted exactly when
    /// `start_port <= end_port`, and rejected with the configuration
    /// error otherwise.
    pub fn new(target: String, start_port: u16, end_port: u16, timeout_ms: u64) -> (r: Result<
        ScanConfig,
        ConfigError,
    >)
        ensures
            r is Ok <==> start_port <= end_port,
            match r {
                Ok(c) => c.target == target && c.start_port == start_port && c.end_port == end_port
                    && c.timeout_ms == timeout_ms && c.wf(),
                Err(e) => e == ConfigError::InvalidPortRange,
            },
    {
        if start_port > end_port {
            Err(ConfigError::InvalidPortRange)
        } else {
            Ok(ScanConfig { target, start_port, end_port, timeout_ms })
        }
    }
}

/// The outcome of one successful probe: an open port and the banner
/// read from it, if any.
pub struct PortResult {
    pub port: u16,
    pub banner: Option<String>,
}

/// Every pair of positions is ordered by port, non-strictly.
pub open spec fn sorted_by_port(s: Seq<PortResult>) -> bool {
    forall|i: int, j: int| 0 <= i < j < s.len() ==> s[i].port <= s[j].port
}

/// No two positions hold the same port.
pub open spec fn ports_distinct(s: Seq<PortResult>) -> bool {
    forall|i: int, j: int| 0 <= i < j < s.len() ==> s[i].port != s[j].port
}

/// Every port lies within `[lo, hi]`.
pub open spec fn ports_within(s: Seq<PortResult>, lo: u16, hi: u16) -> bool {
    forall|i: int| 0 <= i < s.len() ==> lo <= s[i].port && s[i].port <= hi
}

/// The list of ports a scan of `[start_port, end_port]` probes: every
/// port of the range, each exactly once, ascending.
pub fn port_list(start_port: u16, end_port: u16) -> (r: Vec<u16>)
    requires
        start_port <= end_port,
    ensures
        r@.len() == end_port - start_port + 1,
        forall|i: int| 0 <= i < r@.len() ==> r@[i] == start_port + i,
{
    let mut v: Vec<u16> = Vec::new();
    let end: u32 = end_port as u32;
    let mut p: u32 = start_port as u32;
    while p <= end
        invariant
            end == end_port,
            start_port <= p <= end + 1,
            v@.len() == p - start_port,
            forall|i: int| 0 <= i < v@.len() ==> v@[i] == start_port + i,
        decreases end + 1 - p,
    {
        v.push(p as u16);
        p += 1;
    }
    v
}

/// The address string handed to the connector: `host:port` with the
/// port in decimal.
pub fn socket_address(host: &str, port: u16) -> (r: String)
    ensures
        r@ == host@ + ":"@ + decimal_of(port as int),
{
    let r = String::from_str(host).concat(":");
    let r = r.concat(decimal_u16(port).as_str());
    proof {
        assert(r@ =~= host@ + ":"@ + decimal_of(port as int));
    }
    r
}

/// The position at which a result with port `p` belongs in the sorted
/// collection `out`: everything before it is at most `p`, everything
/// from it on is greater.
fn insert_pos(out: &Vec<PortResult>, p: u16) -> (pos: usize)
    requires
        sorted_by_port(out@),
    ensures
        pos <= out@.len(),
        forall|k: int| 0 <= k < pos ==> out@[k].port <= p,
        forall|k: int| pos <= k < out@.len() ==> p < out@[k].port,
{
    let n = out.len();
    let mut i: usize = 0;
    while i < n && out[i].port <= p
        invariant
            n == out@.len(),
            i <= n,
            sorted_by_port(out@),
            forall|k: int| 0 <= k < i ==> out@[k].port <= p,
        decreases n - i,
    {
        i += 1;
    }
    proof {
        if i < n {
            assert forall|k: int| i <= k < n implies p < out@[k].port by {
                if k > i {
                    assert(out@[i as int].port <= out@[k].port);
                }
            }
        }
    }
    i
}

/// The results sorted by port, ascending: a reordering of `v` (the
/// same multiset of results) that is sorted.
pub fn sort_results(v: Vec<PortResult>) -> (r: Vec<PortResult>)
    ensures
        r@.to_multiset() == v@.to_multiset(),
        sorted_by_port(r@),
{
    let mut input = v;
    let ghost orig = input@;
    let mut out: Vec<PortResult> = Vec::new();
    proof {
        assert(out@.to_multiset().add(input@.to_multiset()) =~= orig.to_multiset());
    }
    while input.len() > 0
        invariant
            out@.to_multiset().add(input@.to_multiset()) == orig.to_multiset(),
            sorted_by_port(out@),
        decreases input@.len(),
    {
        let ghost pre = input@;
        let x = input.pop().unwrap();
        proof {
            assert(pre =~= input@.push(x));
            assert(input@.push(x).to_multiset() =~= input@.to_multiset().insert(x));
        }
        let pos = insert_pos(&out, x.port);
        let ghost outpre = out@;
        out.insert(pos, x);
        proof {
            assert(outpre.insert(pos as int, x).to_multiset() == outpre.to_multiset().insert(x));
            assert(out@.to_multiset().add(input@.to_multiset()) =~= orig.to_multiset());
            outpre.insert_ensures(pos as int, x);
            assert forall|i: int, j: int| 0 <= i < j < out@.len() implies out@[i].port
                <= out@[j].port by {
                if j < pos {
                    assert(out@[i] == outpre[i] && out@[j] == outpre[j]);
                } else if i > pos {
                    assert(out@[i] == outpre[i - 1] && out@[j] == outpre[j - 1]);
                } else if i < pos && j == pos {
                    assert(out@[i] == outpre[i]);
                } else if i == pos {
                    assert(out@[j] == outpre[j - 1]);
                } else {
                    assert(i < pos && j > pos);
                    assert(out@[i] == outpre[i] && out@[j] == outpre[j - 1]);
                }
            }
        }
    }
    proof {
        assert forall|a: PortResult| input@.to_multiset().count(a) == 0 by {
            if input@.to_multiset().count(a) > 0 {
                assert(input@.contains(a));
            }
        }
        assert(out@.to_multiset() =~= orig.to_multiset());
    }
    out
}

/// The append-only collection of results, shared by the concurrent
/// probe units during a scan and sorted once they have all finished.
pub struct ResultSet {
    results: Vec<PortResult>,
}

impl View for ResultSet {
    type V = Seq<PortResult>;

    closed spec fn view(&self) -> Seq<PortResult> {
        self.results@
    }
}

impl ResultSet {
    /// An empty collection.
    pub fn new() -> (r: ResultSet)
        ensures
            r@ == Seq::<PortResult>::empty(),
    {
        ResultSet { results: Vec::new() }
    }

    /// How many open ports have been recorded.
    pub fn len(&self) -> (n: usize)
        ensures
            n == self@.len(),
    {
        self.results.len()
    }

    /// Appends one probe outcome. Each unit that found its port open
    /// calls this exactly once, under mutual exclusion.
    pub fn record(&mut self, r: PortResult)
        ensures
            final(self)@ == old(self)@.push(r),
    {
        self.results.push(r);
    }

    /// Hands the collection to the caller, sorted by port ascending:
    /// the same multiset of results, in order.
    pub fn into_sorted(self) -> (r: Vec<PortResult>)
        ensures
            r@.to_multiset() == self@.to_multiset(),
            sorted_by_port(r@),
    {
        sort_results(self.results)
    }
}

/// Law: for a scan over `[lo, hi]` — where every unit records a port of
/// the range and no port twice — the sorted result sequence has every
/// port within `[lo, hi]` and is strictly ascending, with no duplicate.
/// `x` is the collection as recorded, `y` the sorted sequence returned.
pub proof fn lemma_scan_results_ordered(x: Seq<PortResult>, y: Seq<PortResult>, lo: u16, hi: u16)
    requires
        y.to_multiset() == x.to_multiset(),
        sorted_by_port(y),
        ports_distinct(x),
        ports_within(x, lo, hi),
    ensures
        ports_within(y, lo, hi),
        forall|i: int, j: int| 0 <= i < j < y.len() ==> y[i].port < y[j].port,
{
    assert forall|i: int| 0 <= i < y.len() implies lo <= y[i].port && y[i].port <= hi by {
        assert(y.contains(y[i]));
        assert(x.to_multiset().count(y[i]) > 0);
        assert(x.contains(y[i]));
        let k = choose|k: int| 0 <= k < x.len() && x[k] == y[i];
        assert(lo <= x[k].port && x[k].port <= hi);
    }
    assert forall|i: int, j: int| 0 <= i < j < y.len() implies y[i].port < y[j].port by {
        assert(y[i].port <= y[j].port);
        if y[i] == y[j] {
            let yr = y.remove(i);
            assert(yr.to_multiset() =~= y.to_multiset().remove(y[i]));
            assert(yr[j - 1] == y[j]);
            assert(yr.contains(y[j]));
            assert(yr.to_multiset().count(y[j]) > 0);
            assert(y.to_multiset().count(y[i]) >= 2);
            assert(x.no_duplicates()) by {
                assert forall|a: int, b: int|
                    0 <= a < x.len() && 0 <= b < x.len() && a != b implies x[a] != x[b] by {
                    if a < b {
                        assert(x[a].port != x[b].port);
                    } else {
                        assert(x[b].port != x[a].port);
                    }
                }
            }
            x.lemma_multiset_has_no_duplicates();
            assert(x.to_multiset().count(y[i]) <= 1);
            assert(false);
        } else {
            assert(y.contains(y[i]) && y.contains(y[j]));
            assert(x.to_multiset().count(y[i]) > 0 && x.to_multiset().count(y[j]) > 0);
            assert(x.contains(y[i]) && x.contains(y[j]));
            let ki = choose|k: int| 0 <= k < x.len() && x[k] == y[i];
            let kj = choose|k: int| 0 <= k < x.len() && x[k] == y[j];
            assert(ki != kj);
            if ki < kj {
                assert(x[ki].port != x[kj].port);
            } else {
                assert(x[kj].port != x[ki].port);
            }
        }
    }
}

} // verus!
