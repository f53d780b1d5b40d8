use lora_link::arbiter::{Arbiter, RadioCommand, RadioMode};

fn transmits(cmds: &[RadioCommand]) -> Vec<Vec<u8>> {
    let mut out: Vec<Vec<u8>> = Vec::new();
    for cmd in cmds {
        if let RadioCommand::Transmit(f) = cmd {
            out.push(f.clone());
        }
    }
    out
}

fn assert_never_transmits_while_receiving(start: RadioMode, cmds: &[RadioCommand]) {
    let mut mode = start;
    for cmd in cmds {
        match cmd {
            RadioCommand::StartReceive => mode = RadioMode::Receiving,
            RadioCommand::StopReceive => mode = RadioMode::Transmitting,
            RadioCommand::Transmit(_) => assert_eq!(mode, RadioMode::Transmitting),
        }
    }
}

#[test]
fn empty_queue_keeps_receiving() {
    let mut arb = Arbiter::new(3, 1000);
    assert!(arb.wants_line());
    let cmds = arb.step_transmit(0);
    assert!(cmds.is_empty());
    assert!(arb.wants_line());
}

#[test]
fn burst_drains_queue_within_budget() {
    let mut arb = Arbiter::new(3, 1000);
    arb.enqueue(vec![1u8]);
    arb.enqueue(vec![2u8]);
    let cmds = arb.step_transmit(10);
    assert_never_transmits_while_receiving(RadioMode::Receiving, &cmds);
    assert_eq!(transmits(&cmds), vec![vec![1u8], vec![2u8]]);
    // The burst ends back in receive mode, ready to poll for lines.
    assert!(arb.wants_line());
}

#[test]
fn never_polls_lines_while_transmitting() {
    let mut arb = Arbiter::new(1, 1000);
    arb.enqueue(vec![1u8]);
    arb.enqueue(vec![2u8]);
    let cmds = arb.step_transmit(10);
    assert_eq!(transmits(&cmds), vec![vec![1u8]]);
    // The second frame was rate limited and deferred; the retry that sends it
    // leaves the radio in transmit mode, where line polling is refused.
    let cmds = arb.step_transmit(20);
    assert!(transmits(&cmds).is_empty());
    let cmds = arb.step_transmit(1500);
    assert_eq!(transmits(&cmds), vec![vec![2u8]]);
    assert!(!arb.wants_line());
    // With nothing left to send the next pass re-arms the receiver.
    let cmds = arb.step_transmit(1501);
    assert!(transmits(&cmds).is_empty());
    assert!(arb.wants_line());
}

#[test]
fn deferred_frame_goes_out_first_and_once() {
    // Outbound frames F1, F2, F3 against a bucket of one slot per long window.
    let f1 = vec![1u8];
    let f2 = vec![2u8];
    let f3 = vec![3u8];
    let mut arb = Arbiter::new(1, 1000);
    arb.enqueue(f1.clone());
    arb.enqueue(f2.clone());
    arb.enqueue(f3.clone());

    // F1 goes out; the budget is exhausted.
    let cmds = arb.step_transmit(10);
    assert_never_transmits_while_receiving(RadioMode::Receiving, &cmds);
    assert_eq!(transmits(&cmds), vec![f1.clone()]);

    // F2 fails its rate check and is deferred; the radio keeps receiving.
    let cmds = arb.step_transmit(20);
    assert!(transmits(&cmds).is_empty());
    assert!(arb.wants_line());

    // Still rate limited: nothing happens, F2 stays deferred.
    let cmds = arb.step_transmit(500);
    assert!(transmits(&cmds).is_empty());

    // After the window elapses the fresh check passes: F2 goes out exactly
    // once, before F3.
    let cmds = arb.step_transmit(1500);
    assert_never_transmits_while_receiving(RadioMode::Receiving, &cmds);
    assert_eq!(transmits(&cmds), vec![f2.clone()]);

    // F3 in turn is deferred, then follows in its own slot.
    let cmds = arb.step_transmit(1600);
    assert!(transmits(&cmds).is_empty());
    let cmds = arb.step_transmit(3000);
    assert_eq!(transmits(&cmds), vec![f3.clone()]);

    // Every frame went out exactly once.
    let cmds = arb.step_transmit(5000);
    assert!(transmits(&cmds).is_empty());
}

#[test]
fn step_line_decodes_packet_and_rearms() {
    let mut arb = Arbiter::new(3, 1000);
    let line = b"radio_rx  0a0b".to_vec();
    let (cmds, decoded) = arb.step_line(&line).unwrap();
    assert_eq!(cmds.len(), 1);
    assert!(matches!(cmds[0], RadioCommand::StartReceive));
    assert_eq!(decoded, Some(vec![10u8, 11u8]));
}

#[test]
fn step_line_ignores_other_lines() {
    let mut arb = Arbiter::new(3, 1000);
    let line = b"radio_err".to_vec();
    let (cmds, decoded) = arb.step_line(&line).unwrap();
    assert_eq!(cmds.len(), 1);
    assert_eq!(decoded, None);
}

#[test]
fn step_line_rejects_bad_hex() {
    let mut arb = Arbiter::new(3, 1000);
    let line = b"radio_rx  0a0".to_vec();
    assert!(arb.step_line(&line).is_err());
}
