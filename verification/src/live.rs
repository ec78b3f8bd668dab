use std::collections::VecDeque;

use vstd::prelude::*;
use vstd::string::StringExecFns;

use crate::bench::Metrics;
use crate::text::{decimal, push_decimal};

verus! {

/// How many intervals the live charts show: the last two minutes.
pub const MAX_POINTS: usize = 120;

/// The latency of one interval as measured: the summed latency of its
/// replies and their number. Its mean is `total_us / samples` (0 when no
/// reply came).
#[derive(Clone, Copy, Debug, PartialEq, Eq, Structural)]
pub struct Latency {
    pub total_us: u128,
    pub samples: u64,
}

pub open spec fn latency_of(m: Metrics) -> Latency {
    Latency { total_us: m.latency_total_us, samples: m.req_count }
}

pub open spec fn req_count_of(m: Metrics) -> u64 {
    m.req_count
}

pub open spec fn rx_of(m: Metrics) -> u64 {
    m.rx_bytes
}

pub open spec fn tx_of(m: Metrics) -> u64 {
    m.tx_bytes
}

/// The last `MAX_POINTS` elements of `s` (all of them where there are fewer).
pub open spec fn recent<T>(s: Seq<T>) -> Seq<T> {
    if s.len() <= MAX_POINTS {
        s
    } else {
        s.subrange(s.len() - MAX_POINTS, s.len() as int)
    }
}

/// `w` with `v` appended, its oldest element dropped where it was full.
pub open spec fn push_window<T>(w: Seq<T>, v: T) -> Seq<T> {
    if w.len() >= MAX_POINTS {
        w.drop_first().push(v)
    } else {
        w.push(v)
    }
}

/// The requests answered over all of `h`.
pub open spec fn sum_req_counts(h: Seq<Metrics>) -> int
    decreases h.len(),
{
    if h.len() == 0 {
        0
    } else {
        sum_req_counts(h.drop_last()) + h.last().req_count
    }
}

/// The latency taken in for an interval is that interval's own summed
/// latency and reply count, so the mean shown is
/// `latency_total_us / req_count`; each series takes its own field.
pub proof fn lemma_series_values_are_the_metrics(m: Metrics)
    ensures
        latency_of(m).total_us == m.latency_total_us,
        latency_of(m).samples == m.req_count,
        req_count_of(m) == m.req_count,
        rx_of(m) == m.rx_bytes,
        tx_of(m) == m.tx_bytes,
{
}

/// `recent(s)` is the tail of `s` of length `min(len, MAX_POINTS)`.
pub proof fn lemma_recent_is_tail<T>(s: Seq<T>)
    ensures
        recent(s).len() == if s.len() <= MAX_POINTS { s.len() } else { MAX_POINTS as nat },
        recent(s) == s.subrange(s.len() - recent(s).len(), s.len() as int),
{
    assert(s.subrange(0, s.len() as int) =~= s);
}

/// Pushing keeps the new value last, after the newest values that were
/// there before, and never lets a window of at most `MAX_POINTS` grow beyond.
pub proof fn lemma_push_window_keeps_newest<T>(w: Seq<T>, v: T)
    requires
        w.len() <= MAX_POINTS,
    ensures
        push_window(w, v).last() == v,
        push_window(w, v).len() == if w.len() < MAX_POINTS { w.len() + 1 } else { MAX_POINTS as nat },
        push_window(w, v).drop_last() == w.subrange(
            w.len() + 1 - push_window(w, v).len(),
            w.len() as int,
        ),
{
    assert(w.subrange(0, w.len() as int) =~= w);
    assert(push_window(w, v).drop_last() =~= w.subrange(
        w.len() + 1 - push_window(w, v).len(),
        w.len() as int,
    ));
}

/// A view can take in an interval exactly when its totals, with it, still
/// fit their types.
pub proof fn lemma_room_until_totals_overflow(app: AppData, m: Metrics)
    ensures
        app.can_push(m) <==> (app.total_reqs as int + m.req_count as int <= 0xffff_ffff_ffff_ffff
            && app.elapsed as int + 1 <= 0xffff_ffff_ffff_ffff),
{
}

/// Keeping only the last `MAX_POINTS` values and pushing one more keeps the
/// last `MAX_POINTS` of the longer history: the window slides.
pub proof fn lemma_push_window_slides<T>(h: Seq<T>, v: T)
    ensures
        push_window(recent(h), v) == recent(h.push(v)),
{
    if h.len() < MAX_POINTS {
        assert(push_window(recent(h), v) =~= recent(h.push(v)));
    } else {
        assert(push_window(recent(h), v) =~= recent(h.push(v)));
    }
}

/// The last `MAX_POINTS` values of a series, oldest first.
#[derive(Clone, Debug)]
pub struct Window<T> {
    values: VecDeque<T>,
}

impl<T> View for Window<T> {
    type V = Seq<T>;

    closed spec fn view(&self) -> Seq<T> {
        self.values@
    }
}

impl<T: Copy> Window<T> {
    /// No values yet.
    pub fn new() -> (w: Self)
        ensures
            w@ == Seq::<T>::empty(),
    {
        Window { values: VecDeque::with_capacity(MAX_POINTS) }
    }

    /// Appends `v`, dropping the oldest value where the window is full.
    pub fn push(&mut self, v: T)
        ensures
            final(self)@ == push_window(old(self)@, v),
    {
        if self.values.len() >= MAX_POINTS {
            self.values.pop_front();
        }
        self.values.push_back(v);
        proof {
            if old(self)@.len() >= MAX_POINTS {
                assert(final(self)@ =~= push_window(old(self)@, v));
            }
        }
    }

    /// The values, oldest first.
    pub fn to_vec(&self) -> (v: Vec<T>)
        ensures
            v@ == self@,
    {
        let mut v: Vec<T> = Vec::new();
        let n: usize = self.values.len();
        let mut i: usize = 0;
        while i < n
            invariant
                i <= n,
                n == self.values@.len(),
                v@ == self.values@.subrange(0, i as int),
            decreases n - i,
        {
            v.push(self.values[i]);
            i = i + 1;
            assert(v@ =~= self.values@.subrange(0, i as int));
        }
        assert(self.values@.subrange(0, n as int) =~= self.values@);
        v
    }
}

/// What the live view shows: the latest interval, the totals, and the last
/// `MAX_POINTS` intervals of each series. `history` holds, for the proofs
/// only, every interval pushed so far.
#[derive(Clone)]
pub struct AppData {
    pub ip: String,
    pub port: u16,
    pub latencies: Window<Latency>,
    pub throughputs: Window<u64>,
    pub rx_rates: Window<u64>,
    pub tx_rates: Window<u64>,
    pub current_latency: Latency,
    pub current_throughput: u64,
    pub current_rx: u64,
    pub current_tx: u64,
    pub total_reqs: u64,
    pub elapsed: u64,
    pub connected: bool,
    pub history: Ghost<Seq<Metrics>>,
}

impl AppData {
    /// The view agrees with the intervals pushed: each series holds the last
    /// `MAX_POINTS` of them, the totals count all of them, and the current
    /// values are those of the latest (zero before the first).
    pub open spec fn wf(&self) -> bool {
        let h = self.history@;
        &&& self.elapsed == h.len()
        &&& self.total_reqs == sum_req_counts(h)
        &&& self.latencies@ == recent(h.map_values(|m: Metrics| latency_of(m)))
        &&& self.throughputs@ == recent(h.map_values(|m: Metrics| req_count_of(m)))
        &&& self.rx_rates@ == recent(h.map_values(|m: Metrics| rx_of(m)))
        &&& self.tx_rates@ == recent(h.map_values(|m: Metrics| tx_of(m)))
        &&& h.len() == 0 ==> self.current_latency == (Latency { total_us: 0, samples: 0 })
            && self.current_throughput == 0 && self.current_rx == 0 && self.current_tx == 0
        &&& h.len() > 0 ==> self.current_latency == latency_of(h.last())
            && self.current_throughput == h.last().req_count && self.current_rx
            == h.last().rx_bytes && self.current_tx == h.last().tx_bytes
    }

    /// Whether `m` can be pushed without overflowing the totals.
    pub open spec fn can_push(&self, m: Metrics) -> bool {
        self.total_reqs + m.req_count <= u64::MAX && self.elapsed < u64::MAX
    }

    /// An empty view of the server at `ip:port`, not yet connected.
    pub fn new(ip: String, port: u16) -> (a: Self)
        ensures
            a.wf(),
            a.history@ == Seq::<Metrics>::empty(),
            a.ip == ip,
            a.port == port,
            !a.connected,
    {
        let a = AppData {
            ip,
            port,
            latencies: Window::new(),
            throughputs: Window::new(),
            rx_rates: Window::new(),
            tx_rates: Window::new(),
            current_latency: Latency { total_us: 0, samples: 0 },
            current_throughput: 0,
            current_rx: 0,
            current_tx: 0,
            total_reqs: 0,
            elapsed: 0,
            connected: false,
            history: Ghost(Seq::empty()),
        };
        assert(a.latencies@ =~= recent(a.history@.map_values(|m: Metrics| latency_of(m))));
        assert(a.throughputs@ =~= recent(a.history@.map_values(|m: Metrics| req_count_of(m))));
        assert(a.rx_rates@ =~= recent(a.history@.map_values(|m: Metrics| rx_of(m))));
        assert(a.tx_rates@ =~= recent(a.history@.map_values(|m: Metrics| tx_of(m))));
        a
    }

    /// Tests `can_push`.
    pub fn has_room_for(&self, m: &Metrics) -> (b: bool)
        ensures
            b == self.can_push(*m),
            b <==> (self.total_reqs + m.req_count <= u64::MAX && self.elapsed < u64::MAX),
    {
        m.req_count <= u64::MAX - self.total_reqs && self.elapsed < u64::MAX
    }

    /// Takes in the metrics of one more interval.
    pub fn push_metrics(&mut self, m: Metrics)
        requires
            old(self).wf(),
            old(self).can_push(m),
        ensures
            final(self).wf(),
            final(self).history@ == old(self).history@.push(m),
            final(self).current_latency == latency_of(m),
            final(self).current_latency.total_us == m.latency_total_us,
            final(self).current_latency.samples == m.req_count,
            final(self).current_throughput == m.req_count,
            final(self).current_rx == m.rx_bytes,
            final(self).current_tx == m.tx_bytes,
            final(self).total_reqs == old(self).total_reqs + m.req_count,
            final(self).elapsed == old(self).elapsed + 1,
            final(self).latencies@.last() == (Latency {
                total_us: m.latency_total_us,
                samples: m.req_count,
            }),
            final(self).throughputs@.last() == m.req_count,
            final(self).rx_rates@.last() == m.rx_bytes,
            final(self).tx_rates@.last() == m.tx_bytes,
            final(self).latencies@ == push_window(old(self).latencies@, latency_of(m)),
            final(self).throughputs@ == push_window(old(self).throughputs@, m.req_count),
            final(self).rx_rates@ == push_window(old(self).rx_rates@, m.rx_bytes),
            final(self).tx_rates@ == push_window(old(self).tx_rates@, m.tx_bytes),
            final(self).ip == old(self).ip,
            final(self).port == old(self).port,
            final(self).connected == old(self).connected,
    {
        let ghost h = self.history@;
        self.current_latency = Latency { total_us: m.latency_total_us, samples: m.req_count };
        self.current_throughput = m.req_count;
        self.current_rx = m.rx_bytes;
        self.current_tx = m.tx_bytes;
        self.latencies.push(self.current_latency);
        self.throughputs.push(self.current_throughput);
        self.rx_rates.push(m.rx_bytes);
        self.tx_rates.push(m.tx_bytes);
        self.total_reqs = self.total_reqs + m.req_count;
        self.elapsed = self.elapsed + 1;
        self.history = Ghost(h.push(m));
        proof {
            let h2 = h.push(m);
            assert(h2.drop_last() =~= h);
            assert(h2.map_values(|x: Metrics| latency_of(x)) =~= h.map_values(
                |x: Metrics| latency_of(x),
            ).push(latency_of(m)));
            assert(h2.map_values(|x: Metrics| req_count_of(x)) =~= h.map_values(
                |x: Metrics| req_count_of(x),
            ).push(m.req_count));
            assert(h2.map_values(|x: Metrics| rx_of(x)) =~= h.map_values(|x: Metrics| rx_of(x)).push(
                m.rx_bytes,
            ));
            assert(h2.map_values(|x: Metrics| tx_of(x)) =~= h.map_values(|x: Metrics| tx_of(x)).push(
                m.tx_bytes,
            ));
            lemma_push_window_slides(h.map_values(|x: Metrics| latency_of(x)), latency_of(m));
            lemma_push_window_slides(h.map_values(|x: Metrics| req_count_of(x)), m.req_count);
            lemma_push_window_slides(h.map_values(|x: Metrics| rx_of(x)), m.rx_bytes);
            lemma_push_window_slides(h.map_values(|x: Metrics| tx_of(x)), m.tx_bytes);
        }
    }

    /// Takes in one interval as the live view receives it: the metrics are
    /// pushed and the view counts as connected from then on.
    pub fn receive_metrics(&mut self, m: Metrics)
        requires
            old(self).wf(),
            old(self).can_push(m),
        ensures
            final(self).wf(),
            final(self).history@ == old(self).history@.push(m),
            final(self).connected,
            final(self).current_latency == latency_of(m),
            final(self).current_latency.total_us == m.latency_total_us,
            final(self).current_latency.samples == m.req_count,
            final(self).current_throughput == m.req_count,
            final(self).current_rx == m.rx_bytes,
            final(self).current_tx == m.tx_bytes,
            final(self).total_reqs == old(self).total_reqs + m.req_count,
            final(self).elapsed == old(self).elapsed + 1,
            final(self).latencies@.last() == (Latency {
                total_us: m.latency_total_us,
                samples: m.req_count,
            }),
            final(self).throughputs@.last() == m.req_count,
            final(self).rx_rates@.last() == m.rx_bytes,
            final(self).tx_rates@.last() == m.tx_bytes,
            final(self).latencies@ == push_window(old(self).latencies@, latency_of(m)),
            final(self).throughputs@ == push_window(old(self).throughputs@, m.req_count),
            final(self).rx_rates@ == push_window(old(self).rx_rates@, m.rx_bytes),
            final(self).tx_rates@ == push_window(old(self).tx_rates@, m.tx_bytes),
            final(self).ip == old(self).ip,
            final(self).port == old(self).port,
    {
        self.push_metrics(m);
        self.connected = true;
    }
}

/// The smaller of `a` and `b`.
pub open spec fn min_nat(a: nat, b: nat) -> nat {
    if a <= b {
        a
    } else {
        b
    }
}

/// In a well-formed view every series holds one value for each of the last
/// `min(elapsed, MAX_POINTS)` intervals, never more than `MAX_POINTS`, and the
/// newest value of each is the current one.
pub proof fn lemma_series_follow_history(app: AppData)
    requires
        app.wf(),
    ensures
        app.latencies@.len() == min_nat(app.elapsed as nat, MAX_POINTS as nat),
        app.throughputs@.len() == app.latencies@.len(),
        app.rx_rates@.len() == app.latencies@.len(),
        app.tx_rates@.len() == app.latencies@.len(),
        app.latencies@.len() <= MAX_POINTS,
        app.elapsed > 0 ==> app.latencies@.last() == app.current_latency
            && app.throughputs@.last() == app.current_throughput && app.rx_rates@.last()
            == app.current_rx && app.tx_rates@.last() == app.current_tx,
{
}

/// A key event as the live view sees it: whether the key went down (not up
/// or repeated), and the character it types, if any.
#[derive(Clone, Copy, Debug, PartialEq, Eq, Structural)]
pub struct Key {
    pub pressed: bool,
    pub ch: Option<char>,
}

/// The live view quits when `q` is pressed.
pub fn should_quit(key: &Key) -> (b: bool)
    ensures
        b == (key.pressed && key.ch == Some('q')),
{
    match key.ch {
        Some(c) => key.pressed && c == 'q',
        None => false,
    }
}

/// The largest of `values`, and 0 where there are none.
pub open spec fn seq_max(values: Seq<u64>) -> u64
    decreases values.len(),
{
    if values.len() == 0 {
        0
    } else if seq_max(values.drop_last()) >= values.last() {
        seq_max(values.drop_last())
    } else {
        values.last()
    }
}

/// The top of a chart: the largest value of the series, 0 for none.
pub fn series_max(values: &[u64]) -> (r: u64)
    ensures
        r == seq_max(values@),
        forall|i: int| 0 <= i < values@.len() ==> values@[i] <= r,
        values@.len() == 0 ==> r == 0,
        values@.len() > 0 ==> exists|i: int| 0 <= i < values@.len() && values@[i] == r,
{
    let mut r: u64 = 0;
    let mut i: usize = 0;
    while i < values.len()
        invariant
            i <= values@.len(),
            r == seq_max(values@.subrange(0, i as int)),
            forall|j: int| 0 <= j < i ==> values@[j] <= r,
            i == 0 ==> r == 0,
            i > 0 ==> exists|j: int| 0 <= j < i && values@[j] == r,
        decreases values@.len() - i,
    {
        assert(values@.subrange(0, i + 1).drop_last() =~= values@.subrange(0, i as int));
        if values[i] > r {
            r = values[i];
        }
        i = i + 1;
    }
    assert(values@.subrange(0, i as int) =~= values@);
    r
}

/// The labels under the time axis of a live chart: `0`, the middle and the
/// end of the window in seconds.
pub fn x_axis_labels() -> (labels: Vec<String>)
    ensures
        labels@.len() == 3,
        labels@[0]@ == "0"@,
        labels@[1]@ == decimal((MAX_POINTS / 2) as nat) + "s"@,
        labels@[2]@ == decimal(MAX_POINTS as nat) + "s"@,
{
    let mut labels: Vec<String> = Vec::new();
    labels.push(String::from_str("0"));
    let mut middle = String::new();
    push_decimal(&mut middle, (MAX_POINTS / 2) as u64);
    middle.append("s");
    labels.push(middle);
    let mut end = String::new();
    push_decimal(&mut end, MAX_POINTS as u64);
    end.append("s");
    labels.push(end);
    labels
}

/// The title of the throughput chart, with the current rate.
pub fn throughput_title(current: u64) -> (t: String)
    ensures
        t@ == "Throughput (req/s)  [cur: "@ + decimal(current as nat) + "]"@,
{
    let mut t = String::from_str("Throughput (req/s)  [cur: ");
    push_decimal(&mut t, current);
    t.append("]");
    t
}

} // verus!
