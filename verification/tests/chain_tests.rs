use data_flow_rs::blocks::{EvmBlock, EvmTransaction, RpcBlock, RpcTransaction};
use data_flow_rs::split_read::{first_reader_keeps, half_point};
use data_flow_rs::sync::{
    backfill_start, gap_download, live_on_fetched, relay_on_fetched, DownloadError, FetchOutcome,
    HistoryAction, HistoryDownload, LiveStep, RelayStep, BACKFILL_DEPTH,
};

fn sample_tx(seed: u8) -> RpcTransaction {
    RpcTransaction {
        hash: [seed; 32],
        nonce: [seed as u64, 0, 0, 1],
        transaction_index: Some(seed as u64),
        from: [seed; 20],
        to: if seed % 2 == 0 { Some([seed + 1; 20]) } else { None },
        value: [1, 2, 3, seed as u64],
        gas_price: Some([21, 0, 0, 0]),
        gas: [21000, 0, 0, 0],
        input: vec![seed, 0xab, 0xcd],
        v: 27,
        r: [5, 6, 7, 8],
        s: [9, 10, 11, 12],
    }
}

fn assert_tx_kept(tx: &RpcTransaction, out: &EvmTransaction) {
    assert_eq!(out.hash, tx.hash);
    assert_eq!(out.nonce, tx.nonce);
    assert_eq!(out.transaction_index, tx.transaction_index);
    assert_eq!(out.from, tx.from);
    assert_eq!(out.to, tx.to);
    assert_eq!(out.value, tx.value);
    assert_eq!(out.gas_price, tx.gas_price);
    assert_eq!(out.gas, tx.gas);
    assert_eq!(out.input, tx.input);
    assert_eq!(out.v, tx.v);
    assert_eq!(out.r, tx.r);
    assert_eq!(out.s, tx.s);
}

#[test]
fn map_tx_keeps_every_field() {
    let tx = sample_tx(4);
    let out = EvmTransaction::map_tx(&tx);
    assert_tx_kept(&tx, &out);
    assert_eq!(out.input, vec![4, 0xab, 0xcd]);
}

#[test]
fn map_block_keeps_fields_and_transactions_in_order() {
    let block = RpcBlock {
        hash: Some([7; 32]),
        parent_hash: [6; 32],
        number: Some(12_965_030),
        timestamp: [1_700_000_000, 0, 0, 0],
        uncles: vec![[1; 32], [2; 32]],
        transactions: vec![sample_tx(1), sample_tx(2), sample_tx(3)],
    };
    let out = EvmBlock::map_block(&block);
    assert_eq!(out.hash, [7; 32]);
    assert_eq!(out.parent_hash, [6; 32]);
    assert_eq!(out.number, Some(12_965_030));
    assert_eq!(out.timestamp, [1_700_000_000, 0, 0, 0]);
    assert_eq!(out.uncles, vec![[1; 32], [2; 32]]);
    assert_eq!(out.transactions.len(), 3);
    for (tx, kept) in block.transactions.iter().zip(out.transactions.iter()) {
        assert_tx_kept(tx, kept);
    }
    assert_eq!(out.transactions[2].hash, [3; 32]);
}

#[test]
fn map_block_of_an_empty_block() {
    let block = RpcBlock {
        hash: Some([9; 32]),
        parent_hash: [0; 32],
        number: None,
        timestamp: [0; 4],
        uncles: vec![],
        transactions: vec![],
    };
    let out = EvmBlock::map_block(&block);
    assert_eq!(out.hash, [9; 32]);
    assert_eq!(out.number, None);
    assert!(out.uncles.is_empty());
    assert!(out.transactions.is_empty());
}

#[test]
fn new_block_and_transaction_are_empty() {
    let block = EvmBlock::new();
    assert_eq!(block.hash, [0; 32]);
    assert_eq!(block.parent_hash, [0; 32]);
    assert_eq!(block.number, None);
    assert_eq!(block.timestamp, [0; 4]);
    assert!(block.uncles.is_empty() && block.transactions.is_empty());
    let tx = EvmTransaction::new();
    assert_eq!(tx.hash, [0; 32]);
    assert_eq!(tx.nonce, [0; 4]);
    assert_eq!(tx.transaction_index, None);
    assert_eq!(tx.from, [0; 20]);
    assert_eq!(tx.to, None);
    assert_eq!(tx.value, [0; 4]);
    assert_eq!(tx.gas_price, None);
    assert_eq!(tx.gas, [0; 4]);
    assert!(tx.input.is_empty());
    assert_eq!(tx.v, 0);
    assert_eq!(tx.r, [0; 4]);
    assert_eq!(tx.s, [0; 4]);
}

#[test]
fn backfill_starts_ten_blocks_back() {
    assert_eq!(BACKFILL_DEPTH, 10);
    assert_eq!(backfill_start(12_965_040), 12_965_030);
    assert_eq!(backfill_start(10), 0);
}

/// Runs a range download in which every block is found and broadcast, returning the
/// blocks asked for.
fn run_history(mut download: HistoryDownload) -> Vec<u64> {
    let mut fetched = vec![];
    let mut action = download.next_action();
    loop {
        match action {
            HistoryAction::Fetch(n) => {
                fetched.push(n);
                match download.on_fetched(FetchOutcome::Found) {
                    HistoryAction::Broadcast(b) => assert_eq!(b, n),
                    _ => panic!("a found block is broadcast"),
                }
                action = download.on_broadcast(true);
            }
            HistoryAction::Done => return fetched,
            _ => panic!("no failure happens in this run"),
        }
    }
}

#[test]
fn test_download_blocks_until_latest() {
    let from = 12965030;
    assert_eq!(run_history(HistoryDownload::new(from, from + 5)), (from..=from + 5).collect::<Vec<u64>>());
}

#[test]
fn empty_range_downloads_nothing() {
    assert!(run_history(HistoryDownload::new(8, 7)).is_empty());
    assert_eq!(run_history(HistoryDownload::new(3, 3)), vec![3]);
}

#[test]
fn history_stops_on_fetch_failure_and_on_broadcast_failure() {
    let mut download = HistoryDownload::new(1, 4);
    assert!(matches!(download.next_action(), HistoryAction::Fetch(1)));
    match download.on_fetched(FetchOutcome::Failed("timeout".to_string())) {
        HistoryAction::Fail(DownloadError::Fetch(e)) => assert_eq!(e, "timeout"),
        _ => panic!("a failed request stops the download"),
    }
    assert!(matches!(download.on_fetched(FetchOutcome::Found), HistoryAction::Broadcast(1)));
    assert!(matches!(download.on_broadcast(true), HistoryAction::Fetch(2)));
    assert!(matches!(download.on_broadcast(false), HistoryAction::Fail(DownloadError::Broadcast)));
    assert!(matches!(download.next_action(), HistoryAction::Fetch(2)));
}

#[test]
fn gap_between_backfill_and_subscription() {
    assert_eq!(run_history(gap_download(100, 104)), vec![101, 102, 103]);
    assert!(run_history(gap_download(100, 101)).is_empty());
    // The subscription started at or before the backfill's end: nothing is left between.
    assert!(run_history(gap_download(100, 95)).is_empty());
}

#[test]
fn switch_covers_every_block_once() {
    let from = 90;
    let latest = 100;
    let first_live = 104;
    let mut covered: Vec<u64> = run_history(HistoryDownload::new(from, latest));
    covered.extend(run_history(gap_download(latest, first_live)));
    covered.extend(first_live..first_live + 3);
    assert_eq!(covered, (90..107).collect::<Vec<u64>>());
}

#[test]
fn live_and_relay_decisions() {
    assert!(matches!(live_on_fetched(FetchOutcome::Found), LiveStep::Broadcast));
    assert!(matches!(live_on_fetched(FetchOutcome::Missing), LiveStep::ReportMissing));
    assert!(matches!(
        live_on_fetched(FetchOutcome::Failed("down".to_string())),
        LiveStep::Fail(DownloadError::Fetch(ref e)) if e == "down"
    ));
    assert!(matches!(relay_on_fetched(FetchOutcome::Found), RelayStep::Forward));
    assert!(matches!(relay_on_fetched(FetchOutcome::Missing), RelayStep::ReportMissing));
    assert!(matches!(
        relay_on_fetched(FetchOutcome::Failed("down".to_string())),
        RelayStep::ReportError(ref e) if e == "down"
    ));
}

#[test]
fn split_reading_halves() {
    assert_eq!(half_point(101), 50);
    assert_eq!(half_point(0), 0);
    assert!(first_reader_keeps(Some(49), 50));
    assert!(!first_reader_keeps(Some(50), 50));
    assert!(first_reader_keeps(None, 0));
    assert!(!first_reader_keeps(Some(0), 0));
}
