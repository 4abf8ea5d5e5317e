use sosistab_core::decoder::RunDecoder;
use sosistab_core::fec::{FrameDecoder, FrameEncoder};
use sosistab_core::loss::LossCalculator;
use sosistab_core::msg::DataFrame;
use sosistab_core::replay::ReplayFilter;
use sosistab_core::session::{Batcher, SessionReceiver, SessionSender, TARGET_LOSS};

fn payloads(n: usize, tag: u8) -> Vec<Vec<u8>> {
    (0..n).map(|i| vec![tag, i as u8, 7, i as u8]).collect()
}

#[test]
fn replay_filter_admits_once() {
    let mut rp = ReplayFilter::new(0);
    assert!(rp.add(0));
    assert!(rp.add(1));
    assert!(rp.add(2));
    assert!(!rp.add(2));
    assert!(!rp.add(1));
}

#[test]
fn replay_filter_window_slides() {
    let mut rp = ReplayFilter::new(0);
    assert!(rp.add(10));
    assert!(rp.add(20010));
    // 5 fell more than 10000 below the new top: rejected for good
    assert!(!rp.add(5));
    // 15000 is inside the window and unseen
    assert!(rp.add(15000));
    assert!(!rp.add(15000));
}

#[test]
fn replay_filter_rejects_below_start() {
    let mut rp = ReplayFilter::new(100);
    assert!(!rp.add(99));
    assert!(rp.add(100));
    assert!(!rp.add(100));
}

#[test]
fn loss_calculator_gates_samples() {
    let mut lc = LossCalculator::new(0);
    // too few frames
    lc.update_params(50, 50, 5000);
    assert_eq!(lc.median(), 0);
    // too little time
    lc.update_params(200, 150, 1000);
    assert_eq!(lc.median(), 0);
    // all three gates pass: 50 of 200 missing = 64/256
    lc.update_params(200, 150, 5000);
    assert_eq!(lc.median(), 64);
    // gated again right after
    lc.update_params(400, 300, 5500);
    assert_eq!(lc.median(), 64);
}

#[test]
fn loss_calculator_reports_first_quartile() {
    let mut lc = LossCalculator::new(0);
    let mut now = 0u64;
    let mut top = 0u64;
    let mut total = 0u64;
    // three samples with loss 0/256, 128/256, 192/256
    let mut feed = |lost_of_400: u64, lc: &mut LossCalculator, now: &mut u64, top: &mut u64, total: &mut u64| {
        *now += 3000;
        *top += 400;
        *total += 400 - lost_of_400;
        lc.update_params(*top, *total, *now);
    };
    feed(0, &mut lc, &mut now, &mut top, &mut total);
    feed(200, &mut lc, &mut now, &mut top, &mut total);
    feed(300, &mut lc, &mut now, &mut top, &mut total);
    // sorted samples [0, 128, 192], index 3/4 = 0
    assert_eq!(lc.median(), 0);
}

#[test]
fn fec_systematic_round_trip_any_order() {
    let batch = payloads(3, 9);
    let enc = FrameEncoder::new(0);
    let shards = enc.encode(0, &batch);
    assert_eq!(shards.len(), 3);
    let mut dec = FrameDecoder::new(3, 0);
    assert!(dec.decode(&shards[2], 2).is_none());
    assert!(dec.decode(&shards[0], 0).is_none());
    let out = dec.decode(&shards[1], 1).expect("all systematic shards in");
    assert_eq!(out, batch);
    // emitted once only
    assert!(dec.decode(&shards[1], 1).is_none());
}

#[test]
fn fec_parity_recovers_lost_data_shards() {
    let batch = payloads(4, 3);
    let enc = FrameEncoder::new(255);
    let shards = enc.encode(0, &batch);
    // a full-loss target yields one parity shard per data shard
    assert_eq!(shards.len(), 8);
    let mut dec = FrameDecoder::new(4, 4);
    // lose shards 1 and 3; feed 0, 2 and two parity shards
    assert!(dec.decode(&shards[0], 0).is_none());
    assert!(dec.decode(&shards[4], 4).is_none());
    assert!(dec.decode(&shards[2], 2).is_none());
    let out = dec.decode(&shards[5], 5).expect("four shards of eight");
    assert_eq!(out, batch);
}

#[test]
fn fec_parity_count_scales_with_loss() {
    let batch = payloads(16, 1);
    let enc = FrameEncoder::new(TARGET_LOSS);
    // max(target 12, measured 0): ceil(16 * 12 / 256) = 1 parity shard
    assert_eq!(enc.encode(0, &batch).len(), 17);
    // measured loss 128: ceil(16 * 128 / 256) = 8 parity shards
    assert_eq!(enc.encode(128, &batch).len(), 24);
}

#[test]
fn run_decoder_emits_and_window_slides() {
    let batch = payloads(2, 5);
    let enc = FrameEncoder::new(0);
    let shards = enc.encode(0, &batch);
    let mut rd = RunDecoder::new();
    assert!(rd.input(0, 0, 2, 0, &shards[0]).is_none());
    let out = rd.input(0, 1, 2, 0, &shards[1]).expect("run 0 complete");
    assert_eq!(out, batch);
    // a much newer run slides run 1 out of the window
    assert!(rd.input(50, 0, 2, 0, &shards[0]).is_none());
    // retiring run 0 added its 2 received of 2 expected systematic shards
    assert_eq!(rd.total_count(), 2);
    assert_eq!(rd.correct_count(), 2);
    // anything below the window bottom is dropped, and not counted
    assert!(rd.input(1, 0, 2, 0, &shards[0]).is_none());
    assert_eq!(rd.total_data_shards(), 3);
    assert_eq!(rd.total_parity_shards(), 0);
}

#[test]
fn run_decoder_recovers_any_order_mixed_shards() {
    let batch = payloads(3, 6);
    let enc = FrameEncoder::new(255);
    let shards = enc.encode(0, &batch);
    assert_eq!(shards.len(), 6);
    let mut rd = RunDecoder::new();
    // a parity shard first, then systematic shards out of order
    assert!(rd.input(4, 3, 3, 3, &shards[3]).is_none());
    assert!(rd.input(4, 2, 3, 3, &shards[2]).is_none());
    let out = rd.input(4, 0, 3, 3, &shards[0]).expect("three of six shards");
    assert_eq!(out, batch);
    // the emission happens exactly once
    assert!(rd.input(4, 1, 3, 3, &shards[1]).is_none());
}

#[test]
fn batcher_cuts_at_sixteen() {
    let mut b = Batcher::new();
    for i in 0..15u8 {
        assert!(b.push(vec![i]).is_none());
    }
    let batch = b.push(vec![15]).expect("sixteenth payload closes the batch");
    assert_eq!(batch.len(), 16);
    assert_eq!(b.len(), 0);
    assert!(b.flush().is_none());
    assert!(b.push(vec![99]).is_none());
    let rest = b.flush().expect("latency flush takes the remainder");
    assert_eq!(rest, vec![vec![99u8]]);
}

#[test]
fn sender_emits_two_runs_for_32_payloads() {
    let mut batcher = Batcher::new();
    let mut sender = SessionSender::new(TARGET_LOSS);
    let mut runs: Vec<Vec<DataFrame>> = Vec::new();
    for i in 0..32u8 {
        if let Some(batch) = batcher.push(vec![i, i]) {
            runs.push(sender.encode_run(&batch, 0, 0, 0));
        }
    }
    assert_eq!(runs.len(), 2);
    // 16 data shards plus 1 parity shard per run at the default target
    assert_eq!(runs[0].len(), 17);
    assert_eq!(runs[1].len(), 17);
    assert!(runs[0].iter().all(|f| f.run_no == 0 && f.data_shards == 16 && f.parity_shards == 1));
    assert!(runs[1].iter().all(|f| f.run_no == 1 && f.data_shards == 16 && f.parity_shards == 1));
    // frame numbers are strictly monotonic across the whole session
    let nos: Vec<u64> = runs.iter().flatten().map(|f| f.frame_no).collect();
    assert!(nos.windows(2).all(|w| w[0] < w[1]));
    assert_eq!(nos[0], 0);
    assert_eq!(*nos.last().unwrap(), 33);
    // run indices count up within each run
    for (idx, f) in runs[0].iter().enumerate() {
        assert_eq!(f.run_idx as usize, idx);
    }
}

#[test]
fn session_round_trip_lossless_in_order() {
    let mut sender = SessionSender::new(0);
    let mut receiver = SessionReceiver::new(0);
    let mut delivered: Vec<Vec<u8>> = Vec::new();
    let mut submitted: Vec<Vec<u8>> = Vec::new();
    let mut now = 0u64;
    for run in 0..3u8 {
        let batch = payloads(5, run);
        submitted.extend(batch.iter().cloned());
        let frames = sender.encode_run(&batch, 0, 0, 0);
        for f in &frames {
            now += 1;
            if let Some(out) = receiver.process_frame(f, now) {
                delivered.extend(out);
            }
        }
    }
    assert_eq!(delivered, submitted);
}

#[test]
fn session_tolerates_per_run_losses() {
    let mut sender = SessionSender::new(255);
    let mut receiver = SessionReceiver::new(0);
    let batch = payloads(4, 8);
    let frames = sender.encode_run(&batch, 0, 0, 0);
    assert_eq!(frames.len(), 8);
    // frames 1 and 2 are lost; the batch still comes out whole
    let mut out: Vec<Vec<u8>> = Vec::new();
    for (i, f) in frames.iter().enumerate() {
        if i == 1 || i == 2 {
            continue;
        }
        if let Some(got) = receiver.process_frame(f, i as u64) {
            out.extend(got);
        }
    }
    assert_eq!(out, batch);
}

#[test]
fn receiver_drops_replays_and_counts() {
    let mut sender = SessionSender::new(0);
    let mut receiver = SessionReceiver::new(0);
    let batch = payloads(2, 2);
    let frames = sender.encode_run(&batch, 0, 0, 0);
    assert!(receiver.process_frame(&frames[0], 1).is_none());
    // replayed frame: dropped before any counter moves
    assert!(receiver.process_frame(&frames[0], 2).is_none());
    let out = receiver.process_frame(&frames[1], 3).expect("run complete");
    assert_eq!(out, batch);
    let stats = receiver.stats();
    assert_eq!(stats.down_recv, 2);
    assert_eq!(stats.down_total, 1);
    assert_eq!(stats.down_data_shards, 2);
    assert_eq!(stats.recent_seqnos, vec![(1, 0), (3, 1)]);
}
