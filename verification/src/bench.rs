use vstd::prelude::*;

verus! {

/// What one reporting interval measured: the latencies of the replies that
/// came back in it (summed, in microseconds), how many replies came back,
/// and how many bytes the interface received and sent. The mean latency of
/// the interval is `latency_total_us / req_count`, and 0 when no reply came.
#[derive(Clone, Copy, Debug, PartialEq, Eq, Structural)]
pub struct Metrics {
    pub latency_total_us: u128,
    pub req_count: u64,
    pub rx_bytes: u64,
    pub tx_bytes: u64,
}

/// The replies counted since the last report.
#[derive(Debug)]
pub struct BenchState {
    pub total_latency_us: u128,
    pub req_count: u64,
}

impl BenchState {
    /// Whether one more reply of this latency can be counted without
    /// overflowing the sums.
    pub open spec fn can_record(self, latency_us: u128) -> bool {
        self.total_latency_us + latency_us <= u128::MAX && self.req_count < u64::MAX
    }

    /// Nothing counted yet.
    pub fn new() -> (s: Self)
        ensures
            s.total_latency_us == 0,
            s.req_count == 0,
    {
        BenchState { total_latency_us: 0, req_count: 0 }
    }

    /// Tests `can_record`.
    pub fn has_room_for(&self, latency_us: u128) -> (b: bool)
        ensures
            b == self.can_record(latency_us),
            b <==> (self.total_latency_us + latency_us <= u128::MAX && self.req_count < u64::MAX),
    {
        latency_us <= u128::MAX - self.total_latency_us && self.req_count < u64::MAX
    }

    /// Counts one reply that took `latency_us` microseconds.
    pub fn record_reply(&mut self, latency_us: u128)
        requires
            old(self).can_record(latency_us),
        ensures
            final(self).total_latency_us == old(self).total_latency_us + latency_us,
            final(self).req_count == old(self).req_count + 1,
    {
        self.total_latency_us = self.total_latency_us + latency_us;
        self.req_count = self.req_count + 1;
    }

    /// Hands out what was counted, as (summed latency, replies), and starts
    /// counting anew.
    pub fn take_interval(&mut self) -> (r: (u128, u64))
        ensures
            r == (old(self).total_latency_us, old(self).req_count),
            final(self).total_latency_us == 0,
            final(self).req_count == 0,
    {
        let r = (self.total_latency_us, self.req_count);
        self.total_latency_us = 0;
        self.req_count = 0;
        r
    }
}

/// A request of the benchmark stream.
#[derive(Clone, Copy, Debug, PartialEq, Eq, Structural)]
pub struct Ping {
    pub seq: u64,
    pub sent_ns: u64,
}

/// What waiting for the answer to a ping gave.
#[derive(Clone, Copy, Debug, PartialEq, Eq, Structural)]
pub enum Reply {
    /// An answer came back, `latency_us` microseconds after the ping left.
    Pong { latency_us: u128 },
    /// The server closed the stream.
    Closed,
    /// The stream failed.
    Failed,
}

/// What the benchmark loop does next.
#[derive(Clone, Copy, Debug, PartialEq, Eq, Structural)]
pub enum LoopStep {
    /// Send this ping and wait for its answer.
    Send(Ping),
    /// Count a reply of this latency, then go on.
    Record { latency_us: u128 },
    /// Leave the loop.
    Finish,
}

/// The decisions of the benchmark loop: pings are numbered 0, 1, 2, ... in
/// the order their answers came back, and the loop ends when it is asked to
/// stop or when the stream ends.
#[derive(Debug)]
pub struct PingLoop {
    pub seq: u64,
}

impl PingLoop {
    pub fn new() -> (l: Self)
        ensures
            l.seq == 0,
    {
        PingLoop { seq: 0 }
    }

    /// Before each ping: stop when asked to, else send the next ping.
    pub fn next_step(&self, stop_requested: bool) -> (s: LoopStep)
        ensures
            stop_requested ==> s == LoopStep::Finish,
            !stop_requested ==> s == LoopStep::Send(Ping { seq: self.seq, sent_ns: 0 }),
    {
        if stop_requested {
            LoopStep::Finish
        } else {
            LoopStep::Send(Ping { seq: self.seq, sent_ns: 0 })
        }
    }

    /// After a ping: an answer is counted and the next ping gets the next
    /// number; a closed or failed stream ends the loop.
    pub fn on_reply(&mut self, reply: Reply) -> (s: LoopStep)
        requires
            reply is Pong ==> old(self).seq < u64::MAX,
        ensures
            match reply {
                Reply::Pong { latency_us } => s == LoopStep::Record { latency_us }
                    && final(self).seq == old(self).seq + 1,
                _ => s == LoopStep::Finish && final(self).seq == old(self).seq,
            },
    {
        match reply {
            Reply::Pong { latency_us } => {
                self.seq = self.seq + 1;
                LoopStep::Record { latency_us }
            },
            _ => LoopStep::Finish,
        }
    }
}

/// How far a byte counter moved from `prev` to `now`; 0 where it went back
/// (the counter was reset), as `now.saturating_sub(prev)`.
pub open spec fn counter_delta(prev: u64, now: u64) -> u64 {
    if now >= prev {
        (now - prev) as u64
    } else {
        0
    }
}

/// The decisions of the reporter: once per interval it turns the counted
/// replies and the interface's byte counters into one `Metrics`.
#[derive(Debug)]
pub struct Reporter {
    pub last_rx: u64,
    pub last_tx: u64,
}

impl Reporter {
    /// Starts from the counters as first read.
    pub fn new(rx: u64, tx: u64) -> (r: Self)
        ensures
            r.last_rx == rx,
            r.last_tx == tx,
    {
        Reporter { last_rx: rx, last_tx: tx }
    }

    /// The metrics of the interval that ends with the counters at `now_rx`
    /// and `now_tx`: the replies counted in `state` (which starts anew), and
    /// how far each counter moved since the last report.
    pub fn report(&mut self, state: &mut BenchState, now_rx: u64, now_tx: u64) -> (m: Metrics)
        ensures
            m == (Metrics {
                latency_total_us: old(state).total_latency_us,
                req_count: old(state).req_count,
                rx_bytes: counter_delta(old(self).last_rx, now_rx),
                tx_bytes: counter_delta(old(self).last_tx, now_tx),
            }),
            final(state).total_latency_us == 0,
            final(state).req_count == 0,
            final(self).last_rx == now_rx,
            final(self).last_tx == now_tx,
    {
        let (latency_total_us, req_count) = state.take_interval();
        let m = Metrics {
            latency_total_us,
            req_count,
            rx_bytes: now_rx.saturating_sub(self.last_rx),
            tx_bytes: now_tx.saturating_sub(self.last_tx),
        };
        self.last_rx = now_rx;
        self.last_tx = now_tx;
        m
    }
}

/// A reply can be counted exactly when the counted sums, with it, still fit
/// their types: a full second of replies is never refused short of that.
pub proof fn lemma_room_until_sums_overflow(s: BenchState, latency_us: u128)
    ensures
        s.can_record(latency_us) <==> (s.total_latency_us as int + latency_us as int
            <= 0xffff_ffff_ffff_ffff_ffff_ffff_ffff_ffff && s.req_count as int + 1
            <= 0xffff_ffff_ffff_ffff),
{
}

/// A counter that grew moved by its delta; one that went back moved by 0.
pub proof fn lemma_counter_delta_is_growth(prev: u64, now: u64)
    ensures
        prev <= now ==> prev + counter_delta(prev, now) == now,
        now < prev ==> counter_delta(prev, now) == 0,
{
}

/// The sum of the deltas that successive reports give for counter readings
/// `readings`.
pub open spec fn delta_sum(readings: Seq<u64>) -> int
    decreases readings.len(),
{
    if readings.len() < 2 {
        0
    } else {
        delta_sum(readings.drop_last()) + counter_delta(
            readings[readings.len() - 2],
            readings.last(),
        )
    }
}

/// While a counter only grows, the deltas of all reports add up to how far
/// it moved from the first reading to the last: no byte is lost or counted
/// twice.
pub proof fn lemma_deltas_telescope(readings: Seq<u64>)
    requires
        readings.len() >= 1,
        forall|i: int, j: int| 0 <= i <= j < readings.len() ==> readings[i] <= readings[j],
    ensures
        delta_sum(readings) == readings.last() - readings[0],
    decreases readings.len(),
{
    if readings.len() >= 2 {
        lemma_deltas_telescope(readings.drop_last());
        assert(readings[readings.len() - 2] <= readings.last());
    }
}

} // verus!
