use lora_link::error::ErrorKind;
use lora_link::protocol::{
    assert_response, classify_ack, cmd_invalid, cmd_led, cmd_rx_start, cmd_rx_stop,
    default_init_commands, oninit_check, onrx, run_init, token_invalid_param, token_ok,
    token_radio_err, tx_command, AckStep, Led,
};

#[test]
fn command_and_token_text() {
    assert_eq!(cmd_rx_start(), b"radio rx 0".to_vec());
    assert_eq!(cmd_rx_stop(), b"radio rxstop".to_vec());
    assert_eq!(cmd_invalid(), b"INVALIDCOMMAND".to_vec());
    assert_eq!(token_ok(), b"ok".to_vec());
    assert_eq!(token_radio_err(), b"radio_err".to_vec());
    assert_eq!(token_invalid_param(), b"invalid_param".to_vec());
    assert_eq!(cmd_led(Led::Red, true), b"sys set pindig GPIO10 1".to_vec());
    assert_eq!(cmd_led(Led::Red, false), b"sys set pindig GPIO10 0".to_vec());
    assert_eq!(cmd_led(Led::Blue, true), b"sys set pindig GPIO11 1".to_vec());
    assert_eq!(cmd_led(Led::Blue, false), b"sys set pindig GPIO11 0".to_vec());
}

#[test]
fn tx_command_hex_encodes_payload() {
    assert_eq!(tx_command(&vec![0xABu8, 0x00, 0x5f]), b"radio tx ab005f".to_vec());
    assert_eq!(tx_command(&Vec::new()), b"radio tx ".to_vec());
}

#[test]
fn assert_response_matches_exactly() {
    assert!(assert_response(b"ok".to_vec(), token_ok()).is_ok());
    let err = assert_response(b"busy".to_vec(), token_ok()).unwrap_err();
    assert_eq!(err.kind(), ErrorKind::ProtocolMismatch);
}

#[test]
fn ack_classification() {
    assert_eq!(classify_ack(&b"ok".to_vec()), AckStep::Accepted);
    assert_eq!(classify_ack(&b"radio_err".to_vec()), AckStep::ReadAgain);
    assert_eq!(classify_ack(&b"anything else".to_vec()), AckStep::Mismatch);
}

#[test]
fn onrx_decodes_notifications() {
    // The hex body starts after the prefix and one separator byte.
    assert_eq!(onrx(&b"radio_rx  48656c6c6f".to_vec()).unwrap(), Some(b"Hello".to_vec()));
    // Upper-case digits decode too.
    assert_eq!(onrx(&b"radio_rx  AB".to_vec()).unwrap(), Some(vec![0xABu8]));
    // Lines that are no packet notification carry no packet.
    assert_eq!(onrx(&b"radio_err".to_vec()).unwrap(), None);
    assert_eq!(onrx(&b"ok".to_vec()).unwrap(), None);
    // A malformed hex body is an error.
    assert_eq!(onrx(&b"radio_rx  0a0".to_vec()).unwrap_err().kind(), ErrorKind::Other);
    assert_eq!(onrx(&b"radio_rx  zz".to_vec()).unwrap_err().kind(), ErrorKind::Other);
}

#[test]
fn default_command_list_text() {
    let cmds = default_init_commands();
    assert_eq!(cmds.len(), 15);
    assert_eq!(cmds[0], b"sys get ver".to_vec());
    assert_eq!(cmds[1], b"mac reset".to_vec());
    assert_eq!(cmds[2], b"mac pause".to_vec());
    assert_eq!(cmds[14], b"radio set wdt 60000".to_vec());
}

#[test]
fn init_against_agreeable_responder_succeeds() {
    // A mock responder that replies `ok` to every configuration line.
    let commands = default_init_commands();
    let responses: Vec<Vec<u8>> = commands.iter().map(|_| b"ok".to_vec()).collect();
    assert!(run_init(&commands, &responses).is_ok());
}

#[test]
fn init_accepts_varied_reply_text() {
    let commands = default_init_commands();
    let responses: Vec<Vec<u8>> = commands.iter().map(|_| b"4294967245".to_vec()).collect();
    assert!(run_init(&commands, &responses).is_ok());
}

#[test]
fn init_bad_parameter_is_config_error() {
    let commands = default_init_commands();
    let mut responses: Vec<Vec<u8>> = commands.iter().map(|_| b"ok".to_vec()).collect();
    responses[3] = b"invalid_param".to_vec();
    let err = run_init(&commands, &responses).unwrap_err();
    assert_eq!(err.kind(), ErrorKind::Config);
}

#[test]
fn init_skips_empty_lines() {
    let commands = vec![b"radio set bw 125".to_vec(), Vec::new(), b"radio set cr 4/5".to_vec()];
    let responses = vec![b"ok".to_vec(), b"ok".to_vec()];
    assert!(run_init(&commands, &responses).is_ok());
}

#[test]
fn init_missing_response_is_transport_error() {
    let commands = default_init_commands();
    let responses = vec![b"ok".to_vec(), b"ok".to_vec()];
    let err = run_init(&commands, &responses).unwrap_err();
    assert_eq!(err.kind(), ErrorKind::Transport);
}

#[test]
fn oninit_check_rejects_only_bad_parameter() {
    assert!(oninit_check(&b"ok".to_vec()).is_ok());
    assert!(oninit_check(&b"RN2903 1.0.3".to_vec()).is_ok());
    let err = oninit_check(&b"invalid_param".to_vec()).unwrap_err();
    assert_eq!(err.kind(), ErrorKind::Config);
}
