use efbench_core::bench::{BenchState, LoopStep, Metrics, Ping, PingLoop, Reply, Reporter};
use efbench_core::live::{
    series_max, should_quit, throughput_title, x_axis_labels, AppData, Key, Latency, Window,
    MAX_POINTS,
};
use efbench_core::server::{answer, pong_payload, PONG_PAYLOAD_LEN};

fn metrics(i: u64) -> Metrics {
    Metrics { latency_total_us: (i as u128) * 100, req_count: i, rx_bytes: 10 * i, tx_bytes: 20 * i }
}

#[test]
fn bench_state_counts_and_resets() {
    let mut s = BenchState::new();
    assert!(s.has_room_for(250));
    s.record_reply(250);
    s.record_reply(150);
    assert_eq!(s.take_interval(), (400, 2));
    assert_eq!((s.total_latency_us, s.req_count), (0, 0));
    assert_eq!(s.take_interval(), (0, 0));
}

#[test]
fn bench_state_room() {
    let s = BenchState { total_latency_us: u128::MAX - 5, req_count: 3 };
    assert!(s.has_room_for(5));
    assert!(!s.has_room_for(6));
    let full = BenchState { total_latency_us: 0, req_count: u64::MAX };
    assert!(!full.has_room_for(0));
}

#[test]
fn ping_loop_numbers_pings() {
    let mut l = PingLoop::new();
    assert_eq!(l.next_step(false), LoopStep::Send(Ping { seq: 0, sent_ns: 0 }));
    assert_eq!(l.on_reply(Reply::Pong { latency_us: 80 }), LoopStep::Record { latency_us: 80 });
    assert_eq!(l.next_step(false), LoopStep::Send(Ping { seq: 1, sent_ns: 0 }));
    assert_eq!(l.on_reply(Reply::Pong { latency_us: 90 }), LoopStep::Record { latency_us: 90 });
    assert_eq!(l.seq, 2);
    assert_eq!(l.next_step(true), LoopStep::Finish);
}

#[test]
fn ping_loop_ends_with_stream() {
    let mut l = PingLoop::new();
    assert_eq!(l.on_reply(Reply::Closed), LoopStep::Finish);
    assert_eq!(l.on_reply(Reply::Failed), LoopStep::Finish);
    assert_eq!(l.seq, 0);
}

#[test]
fn reporter_reports_interval() {
    let mut state = BenchState::new();
    let mut r = Reporter::new(1000, 500);
    state.record_reply(30);
    state.record_reply(50);
    let m = r.report(&mut state, 1600, 900);
    assert_eq!(m, Metrics { latency_total_us: 80, req_count: 2, rx_bytes: 600, tx_bytes: 400 });
    assert_eq!(state.req_count, 0);
    assert_eq!((r.last_rx, r.last_tx), (1600, 900));
}

#[test]
fn reporter_counter_reset_gives_zero() {
    let mut state = BenchState::new();
    let mut r = Reporter::new(1000, 500);
    let m = r.report(&mut state, 10, 499);
    assert_eq!(m, Metrics { latency_total_us: 0, req_count: 0, rx_bytes: 0, tx_bytes: 0 });
    let m = r.report(&mut state, 25, 600);
    assert_eq!((m.rx_bytes, m.tx_bytes), (15, 101));
}

#[test]
fn reporter_deltas_add_up() {
    let readings = [100u64, 150, 150, 400, 1000];
    let mut state = BenchState::new();
    let mut r = Reporter::new(readings[0], 0);
    let mut sum = 0;
    for &x in &readings[1..] {
        sum += r.report(&mut state, x, 0).rx_bytes;
    }
    assert_eq!(sum, 900);
}

#[test]
fn app_data_starts_empty() {
    let a = AppData::new("10.0.0.1".to_string(), 9000);
    assert_eq!(a.ip, "10.0.0.1");
    assert_eq!(a.port, 9000);
    assert!(!a.connected);
    assert_eq!((a.total_reqs, a.elapsed), (0, 0));
    assert!(a.latencies.to_vec().is_empty());
    assert!(a.throughputs.to_vec().is_empty());
}

#[test]
fn app_data_push_tracks_current_and_totals() {
    let mut a = AppData::new("h".to_string(), 1);
    a.push_metrics(metrics(3));
    a.push_metrics(metrics(5));
    assert_eq!(a.current_latency, Latency { total_us: 500, samples: 5 });
    assert_eq!((a.current_throughput, a.current_rx, a.current_tx), (5, 50, 100));
    assert_eq!((a.total_reqs, a.elapsed), (8, 2));
    assert_eq!(a.throughputs.to_vec(), vec![3, 5]);
    assert_eq!(a.rx_rates.to_vec(), vec![30, 50]);
    assert_eq!(a.tx_rates.to_vec(), vec![60, 100]);
    assert_eq!(
        a.latencies.to_vec(),
        vec![Latency { total_us: 300, samples: 3 }, Latency { total_us: 500, samples: 5 }]
    );
    assert!(!a.connected);
}

#[test]
fn app_data_window_keeps_last_points() {
    let mut a = AppData::new("h".to_string(), 1);
    for i in 1..=130u64 {
        assert!(a.has_room_for(&metrics(i)));
        a.push_metrics(metrics(i));
    }
    let tp = a.throughputs.to_vec();
    assert_eq!(tp.len(), MAX_POINTS);
    assert_eq!(tp, (11..=130).collect::<Vec<u64>>());
    assert_eq!(a.latencies.to_vec().len(), MAX_POINTS);
    assert_eq!(a.rx_rates.to_vec()[0], 110);
    assert_eq!(a.elapsed, 130);
    assert_eq!(a.total_reqs, 130 * 131 / 2);
}

#[test]
fn app_data_room() {
    let mut a = AppData::new("h".to_string(), 1);
    a.push_metrics(Metrics { latency_total_us: 0, req_count: u64::MAX - 1, rx_bytes: 0, tx_bytes: 0 });
    assert!(a.has_room_for(&metrics(1)));
    assert!(!a.has_room_for(&metrics(2)));
}

#[test]
fn receive_marks_connected() {
    let mut a = AppData::new("h".to_string(), 1);
    a.receive_metrics(metrics(2));
    assert!(a.connected);
    assert_eq!(a.elapsed, 1);
}

#[test]
fn window_alone() {
    let mut w: Window<u64> = Window::new();
    for i in 0..200u64 {
        w.push(i);
    }
    assert_eq!(w.to_vec(), (80..200).collect::<Vec<u64>>());
}

#[test]
fn quit_key() {
    assert!(should_quit(&Key { pressed: true, ch: Some('q') }));
    assert!(!should_quit(&Key { pressed: false, ch: Some('q') }));
    assert!(!should_quit(&Key { pressed: true, ch: Some('Q') }));
    assert!(!should_quit(&Key { pressed: true, ch: None }));
}

#[test]
fn chart_max() {
    assert_eq!(series_max(&[]), 0);
    assert_eq!(series_max(&[3, 9, 2]), 9);
    assert_eq!(series_max(&[0, 0]), 0);
    assert_eq!(series_max(&[u64::MAX, 1]), u64::MAX);
}

#[test]
fn chart_labels() {
    assert_eq!(x_axis_labels(), vec!["0".to_string(), "60s".to_string(), "120s".to_string()]);
    assert_eq!(throughput_title(4321), "Throughput (req/s)  [cur: 4321]");
}

#[test]
fn server_payload_and_answer() {
    let p = pong_payload();
    assert_eq!(p.len(), PONG_PAYLOAD_LEN);
    assert_eq!(PONG_PAYLOAD_LEN, 16 * 1024);
    assert!(p.iter().all(|&b| b == 0));
    let pong = answer(&p, true).expect("a pong");
    assert_eq!(pong.data, p);
    assert!(answer(&p, false).is_none());
}
