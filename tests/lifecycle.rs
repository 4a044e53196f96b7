use solana_tx_visualizer::block::Block;
use solana_tx_visualizer::coordinator::{
    Coordinator, Phase, ReadyStatus, ShutdownStep, Teardown, EXITED_BEFORE_OPENING,
};
use solana_tx_visualizer::gateway::{
    rpc_url, websocket_url, BlockGatewayImpl, BlockService, FetchError, TrackerService, USDC_MINT,
};
use solana_tx_visualizer::raw::RawBlock;
use solana_tx_visualizer::stream::{
    on_fetched, on_slot_update, FetchAction, NotificationAction, SlotUpdate, BACKOFF_SECS,
};

fn names(n: usize) -> Vec<String> {
    (0..n).map(|i| format!("sub{}", i)).collect()
}

fn is_all_ready(c: &Coordinator) -> bool {
    matches!(c.ready_status(), ReadyStatus::AllReady)
}

fn is_waiting(c: &Coordinator) -> bool {
    matches!(c.ready_status(), ReadyStatus::Waiting)
}

#[test]
fn ready_only_after_every_subscription() {
    let mut c = Coordinator::start(&names(3));
    assert_eq!(c.subscriptions.len(), 3);
    assert_eq!(c.subscriptions[1].name, "sub1");
    assert!(is_waiting(&c));
    c.on_opened(0);
    c.on_opened(0);
    assert_eq!(c.ready_signals, 1);
    assert!(is_waiting(&c));
    c.on_opened(2);
    assert!(is_waiting(&c));
    c.on_opened(1);
    assert_eq!(c.ready_signals, 3);
    assert!(is_all_ready(&c));
}

#[test]
fn no_subscriptions_are_ready_at_once() {
    let c = Coordinator::start(&names(0));
    assert!(is_all_ready(&c));
    assert_eq!(c.next_shutdown_step(), ShutdownStep::Done);
}

#[test]
fn first_failure_is_reported_at_once() {
    let mut c = Coordinator::start(&names(3));
    c.on_opened(0);
    c.on_open_failed(2, "refused".to_string());
    match c.ready_status() {
        ReadyStatus::Failed(k, e) => {
            assert_eq!(k, 2);
            assert_eq!(e, "refused");
        }
        other => panic!("unexpected {:?}", other),
    }
    c.on_open_failed(1, "later".to_string());
    match c.ready_status() {
        ReadyStatus::Failed(k, _) => assert_eq!(k, 2),
        other => panic!("unexpected {:?}", other),
    }
    // A ready signal after a failure of the same subscription is ignored.
    c.on_opened(2);
    assert_eq!(c.subscriptions[2].phase, Phase::Failed);
    assert_eq!(c.ready_signals, 1);
}

#[test]
fn out_of_range_events_change_nothing() {
    let mut c = Coordinator::start(&names(1));
    c.on_opened(5);
    c.on_open_failed(5, "x".to_string());
    c.on_teardown_done(5);
    c.on_task_exited(5);
    assert_eq!(c.ready_signals, 0);
    assert!(c.first_error.is_none());
    assert_eq!(c.subscriptions[0].phase, Phase::Opening);
}

#[test]
fn shutdown_runs_each_teardown_once_then_joins() {
    let mut c = Coordinator::start(&names(2));
    c.on_opened(0);
    c.on_opened(1);
    let mut steps = Vec::new();
    loop {
        let step = c.next_shutdown_step();
        steps.push(step);
        match step {
            ShutdownStep::Unsubscribe(i) => c.on_teardown_done(i),
            ShutdownStep::Join(i) => c.on_task_exited(i),
            ShutdownStep::AwaitSignal => panic!("nothing is opening"),
            ShutdownStep::Cancel(_) => panic!("no stream failed"),
            ShutdownStep::Done => break,
        }
    }
    assert_eq!(
        steps,
        vec![
            ShutdownStep::Unsubscribe(0),
            ShutdownStep::Unsubscribe(1),
            ShutdownStep::Join(0),
            ShutdownStep::Join(1),
            ShutdownStep::Done,
        ]
    );
    for s in &c.subscriptions {
        assert_eq!(s.teardown, Teardown::Invoked);
        assert!(!s.running);
    }
    // Shutting down again does nothing.
    assert_eq!(c.next_shutdown_step(), ShutdownStep::Done);
    c.on_teardown_done(0);
    assert_eq!(c.subscriptions[0].teardown, Teardown::Invoked);
}

#[test]
fn shutdown_waits_for_opening_subscription() {
    let mut c = Coordinator::start(&names(2));
    c.on_opened(1);
    assert_eq!(c.next_shutdown_step(), ShutdownStep::Unsubscribe(1));
    c.on_teardown_done(1);
    assert_eq!(c.next_shutdown_step(), ShutdownStep::AwaitSignal);
    c.on_opened(0);
    assert_eq!(c.next_shutdown_step(), ShutdownStep::Unsubscribe(0));
    c.on_teardown_done(0);
    assert_eq!(c.next_shutdown_step(), ShutdownStep::Join(0));
}

#[test]
fn task_exit_before_opening_is_a_failure() {
    let mut c = Coordinator::start(&names(2));
    c.on_opened(0);
    c.on_task_exited(1);
    assert_eq!(c.subscriptions[1].phase, Phase::Failed);
    assert!(!c.subscriptions[1].running);
    match c.ready_status() {
        ReadyStatus::Failed(k, e) => {
            assert_eq!(k, 1);
            assert_eq!(e, EXITED_BEFORE_OPENING);
        }
        other => panic!("unexpected {:?}", other),
    }
    assert_eq!(c.next_shutdown_step(), ShutdownStep::Unsubscribe(0));
}

#[test]
fn failed_subscription_has_no_teardown() {
    let mut c = Coordinator::start(&names(1));
    c.on_open_failed(0, "no".to_string());
    assert_eq!(c.next_shutdown_step(), ShutdownStep::Join(0));
    c.on_task_exited(0);
    assert_eq!(c.next_shutdown_step(), ShutdownStep::Done);
    assert_eq!(c.subscriptions[0].teardown, Teardown::Pending);
}

#[test]
fn endpoints_of_cluster() {
    assert_eq!(rpc_url("mainnet-beta"), "https://api.mainnet-beta.solana.com");
    assert_eq!(websocket_url("devnet"), "wss://api.devnet.solana.com/");
    let g = BlockGatewayImpl::new("testnet");
    assert_eq!(g.rpc_url, "https://api.testnet.solana.com");
    assert_eq!(g.websocket_url, "wss://api.testnet.solana.com/");
    assert_eq!(g.mint, USDC_MINT);
    let t = TrackerService::new("devnet", g.clone());
    assert_eq!(t.cluster, "devnet");
    assert_eq!(t.websocket_url(), "wss://api.devnet.solana.com/");
    let s = BlockService::new(g);
    assert_eq!(s.block_gateway.rpc_url, "https://api.testnet.solana.com");
}

#[test]
fn fetch_failure_carries_slot_and_text() {
    let g = BlockGatewayImpl::new("devnet");
    match g.block_from_fetch(42, Err("timeout".to_string())) {
        Err(FetchError { slot, message }) => {
            assert_eq!(slot, 42);
            assert_eq!(message, "timeout");
        }
        Ok(_) => panic!("expected an error"),
    }
    let raw = RawBlock { blockhash: "bh".to_string(), transactions: Some(vec![]) };
    let b = g.block_from_fetch(43, Ok(raw)).unwrap();
    assert_eq!(b.slot, 43);
    assert_eq!(b.blockhash, "bh");
}

#[test]
fn only_completed_slots_are_fetched() {
    assert_eq!(on_slot_update(SlotUpdate::Completed { slot: 9 }), NotificationAction::Fetch(9));
    assert_eq!(on_slot_update(SlotUpdate::Other), NotificationAction::Ignore);
}

#[test]
fn failed_fetch_backs_off() {
    let e = FetchError { slot: 1, message: "x".to_string() };
    assert!(matches!(on_fetched(Err(e)), FetchAction::Backoff(BACKOFF_SECS)));
    assert_eq!(BACKOFF_SECS, 5);
    match on_fetched(Ok(Block::new(3, "h".to_string()))) {
        FetchAction::Forward(b) => assert_eq!(b.slot, 3),
        _ => panic!("expected forward"),
    }
}

#[test]
fn teardowns_run_in_handover_order() {
    let mut c = Coordinator::start(&names(3));
    c.on_opened(2);
    c.on_opened(0);
    c.on_opened(1);
    assert_eq!(c.registered, vec![2, 0, 1]);
    let mut order = Vec::new();
    loop {
        match c.next_shutdown_step() {
            ShutdownStep::Unsubscribe(i) => {
                order.push(i);
                c.on_teardown_done(i);
            }
            ShutdownStep::Join(i) => c.on_task_exited(i),
            ShutdownStep::Done => break,
            other => panic!("unexpected {:?}", other),
        }
    }
    assert_eq!(order, vec![2, 0, 1]);
}

#[test]
fn shutdown_after_failure_cancels_opening_tasks() {
    let mut c = Coordinator::start(&names(3));
    c.on_opened(0);
    c.on_open_failed(1, "refused".to_string());
    assert!(matches!(c.ready_status(), ReadyStatus::Failed(1, _)));
    assert_eq!(c.next_shutdown_step(), ShutdownStep::Unsubscribe(0));
    c.on_teardown_done(0);
    assert_eq!(c.next_shutdown_step(), ShutdownStep::Cancel(2));
    c.on_task_exited(2);
    assert_eq!(c.subscriptions[2].phase, Phase::Failed);
    assert_eq!(c.next_shutdown_step(), ShutdownStep::Join(0));
    c.on_task_exited(0);
    assert_eq!(c.next_shutdown_step(), ShutdownStep::Join(1));
    c.on_task_exited(1);
    assert_eq!(c.next_shutdown_step(), ShutdownStep::Done);
    match c.ready_status() {
        ReadyStatus::Failed(k, e) => {
            assert_eq!(k, 1);
            assert_eq!(e, "refused");
        }
        other => panic!("unexpected {:?}", other),
    }
}
