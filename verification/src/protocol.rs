use vstd::prelude::*;

use crate::error::{ErrorKind, RadioError};

verus! {

/// The byte sequence of an ASCII string literal.
pub open spec fn lit_bytes(s: &str) -> Seq<u8> {
    Seq::new(s@.len(), |i: int| s@[i] as u8)
}

/// Turn an ASCII command or token literal into its line bytes.
pub fn ascii_bytes(s: &str) -> (t: Vec<u8>)
    requires
        vstd::string::is_ascii(s),
    ensures
        t@ == lit_bytes(s),
{
    proof {
        broadcast use vstd::string::is_ascii_spec_bytes;
    }
    let b = s.as_bytes();
    assert(b@ =~= lit_bytes(s));
    vstd::slice::slice_to_vec(b)
}

/// Compare two byte lines for equality.
pub fn bytes_eq(a: &Vec<u8>, b: &Vec<u8>) -> (r: bool)
    ensures
        r == (a@ == b@),
{
    if a.len() != b.len() {
        return false;
    }
    let mut i: usize = 0;
    while i < a.len()
        invariant
            a@.len() == b@.len(),
            i <= a@.len(),
            forall|k: int| 0 <= k < i ==> a@[k] == b@[k],
        decreases a@.len() - i,
    {
        if a[i] != b[i] {
            return false;
        }
        i = i + 1;
    }
    proof {
        assert(a@ =~= b@);
    }
    true
}

/// Does `line` begin with `prefix`?
pub fn starts_with_bytes(line: &Vec<u8>, prefix: &Vec<u8>) -> (r: bool)
    ensures
        r == (line@.len() >= prefix@.len() && line@.subrange(0, prefix@.len() as int)
            == prefix@),
{
    if line.len() < prefix.len() {
        return false;
    }
    let mut i: usize = 0;
    while i < prefix.len()
        invariant
            line@.len() >= prefix@.len(),
            i <= prefix@.len(),
            forall|k: int| 0 <= k < i ==> line@[k] == prefix@[k],
        decreases prefix@.len() - i,
    {
        if line[i] != prefix[i] {
            assert(line@.subrange(0, prefix@.len() as int)[i as int] != prefix@[i as int]);
            return false;
        }
        i = i + 1;
    }
    proof {
        assert(line@.subrange(0, prefix@.len() as int) =~= prefix@);
    }
    true
}

/// The success token the radio answers with.
pub fn token_ok() -> (t: Vec<u8>)
    ensures
        t@ == lit_bytes("ok"),
{
    proof {
        reveal_strlit("ok");
    }
    ascii_bytes("ok")
}

/// The harmless error token the radio sometimes emits just before a real
/// acknowledgement.
pub fn token_radio_err() -> (t: Vec<u8>)
    ensures
        t@ == lit_bytes("radio_err"),
{
    proof {
        reveal_strlit("radio_err");
    }
    ascii_bytes("radio_err")
}

/// The token the radio answers to a configuration command it rejects.
pub fn token_invalid_param() -> (t: Vec<u8>)
    ensures
        t@ == lit_bytes("invalid_param"),
{
    proof {
        reveal_strlit("invalid_param");
    }
    ascii_bytes("invalid_param")
}

/// The prefix of an inbound-packet notification line.
pub fn rx_notification_prefix() -> (t: Vec<u8>)
    ensures
        t@ == lit_bytes("radio_rx "),
{
    proof {
        reveal_strlit("radio_rx ");
    }
    ascii_bytes("radio_rx ")
}

/// The command that arms the receiver.
pub fn cmd_rx_start() -> (c: Vec<u8>)
    ensures
        c@ == lit_bytes("radio rx 0"),
{
    proof {
        reveal_strlit("radio rx 0");
    }
    ascii_bytes("radio rx 0")
}

/// The command that stops the receiver so the radio can transmit.
pub fn cmd_rx_stop() -> (c: Vec<u8>)
    ensures
        c@ == lit_bytes("radio rxstop"),
{
    proof {
        reveal_strlit("radio rxstop");
    }
    ascii_bytes("radio rxstop")
}

/// The deliberately invalid command written once at startup to flush stale
/// radio state.
pub fn cmd_invalid() -> (c: Vec<u8>)
    ensures
        c@ == lit_bytes("INVALIDCOMMAND"),
{
    proof {
        reveal_strlit("INVALIDCOMMAND");
    }
    ascii_bytes("INVALIDCOMMAND")
}

/// The two indicator lights on the stick, driven over GPIO pins purely as
/// activity indicators.
#[derive(Clone, Copy, PartialEq, Eq, Structural, Debug)]
pub enum Led {
    Red,
    Blue,
}

/// The GPIO command line that switches an indicator light.
pub open spec fn led_command_bytes(led: Led, on: bool) -> Seq<u8> {
    match (led, on) {
        (Led::Red, true) => lit_bytes("sys set pindig GPIO10 1"),
        (Led::Red, false) => lit_bytes("sys set pindig GPIO10 0"),
        (Led::Blue, true) => lit_bytes("sys set pindig GPIO11 1"),
        (Led::Blue, false) => lit_bytes("sys set pindig GPIO11 0"),
    }
}

/// Build the GPIO command that switches an indicator light.
pub fn cmd_led(led: Led, on: bool) -> (c: Vec<u8>)
    ensures
        c@ == led_command_bytes(led, on),
{
    match (led, on) {
        (Led::Red, true) => {
            proof {
                reveal_strlit("sys set pindig GPIO10 1");
            }
            ascii_bytes("sys set pindig GPIO10 1")
        },
        (Led::Red, false) => {
            proof {
                reveal_strlit("sys set pindig GPIO10 0");
            }
            ascii_bytes("sys set pindig GPIO10 0")
        },
        (Led::Blue, true) => {
            proof {
                reveal_strlit("sys set pindig GPIO11 1");
            }
            ascii_bytes("sys set pindig GPIO11 1")
        },
        (Led::Blue, false) => {
            proof {
                reveal_strlit("sys set pindig GPIO11 0");
            }
            ascii_bytes("sys set pindig GPIO11 0")
        },
    }
}

/// A byte is an ASCII hex digit, in either case.
pub open spec fn is_hex_digit(c: u8) -> bool {
    (48 <= c <= 57) || (97 <= c <= 102) || (65 <= c <= 70)
}

/// The numeric value of a hex digit byte.
pub open spec fn hex_digit_val(c: u8) -> u8
    recommends
        is_hex_digit(c),
{
    if 48 <= c <= 57 {
        (c - 48) as u8
    } else if 97 <= c <= 102 {
        (c - 87) as u8
    } else {
        (c - 55) as u8
    }
}

/// The lowercase hex digit byte for a nibble value.
pub open spec fn hex_digit_lower(n: u8) -> u8
    recommends
        n < 16,
{
    if n < 10 {
        (48 + n) as u8
    } else {
        (87 + n) as u8
    }
}

/// Text-hex encoding: two lowercase digits per byte, high nibble first.
pub open spec fn hex_encoded(data: Seq<u8>) -> Seq<u8> {
    Seq::new(
        data.len() * 2,
        |i: int|
            if i % 2 == 0 {
                hex_digit_lower(data[i / 2] / 16)
            } else {
                hex_digit_lower((data[i / 2] % 16) as u8)
            },
    )
}

/// A byte sequence is decodable hex text: even length, all digits.
pub open spec fn is_hex_text(s: Seq<u8>) -> bool {
    s.len() % 2 == 0 && forall|i: int| 0 <= i < s.len() ==> is_hex_digit(#[trigger] s[i])
}

/// Text-hex decoding of an even-length digit sequence.
pub open spec fn hex_decoded(s: Seq<u8>) -> Seq<u8> {
    Seq::new(
        s.len() / 2,
        |i: int| ((hex_digit_val(s[2 * i]) as int) * 16 + hex_digit_val(s[2 * i + 1]) as int) as u8,
    )
}

/// Relies on hex::encode: each input byte becomes two lowercase hex digits,
/// high nibble first, so the output is exactly twice as long.
#[verifier::external_body]
fn hex_encode(data: &Vec<u8>) -> (r: Vec<u8>)
    ensures
        r@ == hex_encoded(data@),
{
    hex::encode(data).into_bytes()
}

/// Relies on hex::decode: it accepts exactly the even-length strings of hex
/// digits of either case, and maps each digit pair to the byte it spells,
/// high nibble first.
#[verifier::external_body]
fn hex_decode(data: &[u8]) -> (r: Option<Vec<u8>>)
    ensures
        r is Some <==> is_hex_text(data@),
        r matches Some(v) ==> v@ == hex_decoded(data@),
{
    hex::decode(data).ok()
}

/// Build the transmit command for a frame: the command word followed by the
/// text-hex encoding of the frame bytes.
pub fn tx_command(data: &Vec<u8>) -> (c: Vec<u8>)
    ensures
        c@ == lit_bytes("radio tx ") + hex_encoded(data@),
{
    proof {
        reveal_strlit("radio tx ");
    }
    let mut c = ascii_bytes("radio tx ");
    let mut h = hex_encode(data);
    c.append(&mut h);
    c
}

/// Check one response line against the expected text; a mismatch is a
/// protocol error.
pub fn assert_response(resp: Vec<u8>, expected: Vec<u8>) -> (r: Result<(), RadioError>)
    ensures
        r is Ok <==> resp@ == expected@,
        r matches Err(e) ==> e.kind == ErrorKind::ProtocolMismatch,
{
    if bytes_eq(&resp, &expected) {
        Ok(())
    } else {
        Err(RadioError::new(ErrorKind::ProtocolMismatch, "unexpected response from radio"))
    }
}

/// How a command acknowledgement line is to be taken: the success token
/// accepts, the harmless error token asks for one further read (the real
/// acknowledgement follows it), anything else is a mismatch.
#[derive(Clone, Copy, PartialEq, Eq, Structural, Debug)]
pub enum AckStep {
    Accepted,
    ReadAgain,
    Mismatch,
}

/// The acknowledgement reading of a line.
pub open spec fn ack_of(line: Seq<u8>) -> AckStep {
    if line == lit_bytes("ok") {
        AckStep::Accepted
    } else if line == lit_bytes("radio_err") {
        AckStep::ReadAgain
    } else {
        AckStep::Mismatch
    }
}

/// Classify one acknowledgement line.  The harmless-error tolerance is a
/// single extra read, never a broader policy.
pub fn classify_ack(line: &Vec<u8>) -> (s: AckStep)
    ensures
        s == ack_of(line@),
{
    if bytes_eq(line, &token_ok()) {
        AckStep::Accepted
    } else if bytes_eq(line, &token_radio_err()) {
        AckStep::ReadAgain
    } else {
        AckStep::Mismatch
    }
}

/// Is this line an inbound-packet notification?
pub open spec fn is_rx_notification(line: Seq<u8>) -> bool {
    line.len() >= 9 && line.subrange(0, 9) == lit_bytes("radio_rx ")
}

/// The hex-text part of a packet notification line: everything after the
/// prefix and the extra separator byte.
pub open spec fn rx_hex_part(line: Seq<u8>) -> Seq<u8>
    recommends
        line.len() >= 10,
{
    line.subrange(10, line.len() as int)
}

/// Handle one line read while receiving.  A packet notification has its hex
/// body decoded into the packet bytes; any other line (such as a stray
/// harmless error token) carries no packet and is ignored.
pub fn onrx(msg: &Vec<u8>) -> (r: Result<Option<Vec<u8>>, RadioError>)
    ensures
        !is_rx_notification(msg@) ==> (r matches Ok(p) && p is None),
        is_rx_notification(msg@) && msg@.len() >= 10 && is_hex_text(rx_hex_part(msg@)) ==> (
        r matches Ok(p) && (p matches Some(d) && d@ == hex_decoded(rx_hex_part(msg@)))),
        is_rx_notification(msg@) && !(msg@.len() >= 10 && is_hex_text(rx_hex_part(msg@))) ==> (
        r matches Err(e) && e.kind == ErrorKind::Other),
    {
        proof {
            reveal_strlit("radio_rx ");
            assert(lit_bytes("radio_rx ").len() == 9);
        }
        let prefix = rx_notification_prefix();
        if !starts_with_bytes(msg, &prefix) {
            return Ok(None);
        }
        if msg.len() < 10 {
            return Err(mkerror_hex());
        }
        let body = vstd::slice::slice_subrange(msg.as_slice(), 10, msg.len());
        assert(body@ == rx_hex_part(msg@));
        match hex_decode(body) {
            Some(decoded) => Ok(Some(decoded)),
            None => Err(mkerror_hex()),
        }
    }

/// The error the receive path reports when a notification's hex body does not
/// decode.
fn mkerror_hex() -> (e: RadioError)
    ensures
        e.kind == ErrorKind::Other,
{
    crate::error::mkerror("Error with hex decoding")
}

/// The built-in configuration sequence used when no init file is supplied:
/// version query, MAC reset and pause, parameter get commands, then power,
/// spreading factor, bandwidth, coding rate and watchdog settings.
pub open spec fn default_init_bytes() -> Seq<Seq<u8>> {
    seq![
        lit_bytes("sys get ver"),
        lit_bytes("mac reset"),
        lit_bytes("mac pause"),
        lit_bytes("radio get mod"),
        lit_bytes("radio get freq"),
        lit_bytes("radio get pwr"),
        lit_bytes("radio get sf"),
        lit_bytes("radio get bw"),
        lit_bytes("radio get cr"),
        lit_bytes("radio get wdt"),
        lit_bytes("radio set pwr 22"),
        lit_bytes("radio set sf sf12"),
        lit_bytes("radio set bw 125"),
        lit_bytes("radio set cr 4/5"),
        lit_bytes("radio set wdt 60000"),
    ]
}

/// Build the built-in configuration command list.
pub fn default_init_commands() -> (v: Vec<Vec<u8>>)
    ensures
        v.deep_view() == default_init_bytes(),
{
    let mut v: Vec<Vec<u8>> = Vec::new();
    proof {
        reveal_strlit("sys get ver");
    }
    v.push(ascii_bytes("sys get ver"));
    proof {
        reveal_strlit("mac reset");
    }
    v.push(ascii_bytes("mac reset"));
    proof {
        reveal_strlit("mac pause");
    }
    v.push(ascii_bytes("mac pause"));
    proof {
        reveal_strlit("radio get mod");
    }
    v.push(ascii_bytes("radio get mod"));
    proof {
        reveal_strlit("radio get freq");
    }
    v.push(ascii_bytes("radio get freq"));
    proof {
        reveal_strlit("radio get pwr");
    }
    v.push(ascii_bytes("radio get pwr"));
    proof {
        reveal_strlit("radio get sf");
    }
    v.push(ascii_bytes("radio get sf"));
    proof {
        reveal_strlit("radio get bw");
    }
    v.push(ascii_bytes("radio get bw"));
    proof {
        reveal_strlit("radio get cr");
    }
    v.push(ascii_bytes("radio get cr"));
    proof {
        reveal_strlit("radio get wdt");
    }
    v.push(ascii_bytes("radio get wdt"));
    proof {
        reveal_strlit("radio set pwr 22");
    }
    v.push(ascii_bytes("radio set pwr 22"));
    proof {
        reveal_strlit("radio set sf sf12");
    }
    v.push(ascii_bytes("radio set sf sf12"));
    proof {
        reveal_strlit("radio set bw 125");
    }
    v.push(ascii_bytes("radio set bw 125"));
    proof {
        reveal_strlit("radio set cr 4/5");
    }
    v.push(ascii_bytes("radio set cr 4/5"));
    proof {
        reveal_strlit("radio set wdt 60000");
    }
    v.push(ascii_bytes("radio set wdt 60000"));
    proof {
        assert(v.deep_view() =~~= default_init_bytes());
    }
    v
}

/// Check the radio's reply to one configuration command: any line other than
/// the bad-parameter token is accepted, since the radio's textual replies
/// vary by command.
pub fn oninit_check(line: &Vec<u8>) -> (r: Result<(), RadioError>)
    ensures
        r is Ok <==> line@ != lit_bytes("invalid_param"),
        r matches Err(e) ==> e.kind == ErrorKind::Config,
{
    if bytes_eq(line, &token_invalid_param()) {
        Err(RadioError::new(ErrorKind::Config, "Bad response from radio during initialization"))
    } else {
        Ok(())
    }
}

/// How many of the first `upto` command lines are nonempty, and so are
/// actually sent to the radio.
pub open spec fn nonempty_count(cmds: Seq<Seq<u8>>, upto: int) -> int
    decreases upto,
{
    if upto <= 0 {
        0
    } else {
        nonempty_count(cmds, upto - 1) + (if cmds[upto - 1].len() > 0 {
            1int
        } else {
            0int
        })
    }
}

proof fn lemma_nonempty_mono(cmds: Seq<Seq<u8>>, a: int, b: int)
    requires
        0 <= a <= b,
    ensures
        nonempty_count(cmds, a) <= nonempty_count(cmds, b),
    decreases b - a,
{
    if a < b {
        lemma_nonempty_mono(cmds, a, b - 1);
    }
}

/// The deciding core of initialization: walk the command list, skipping empty
/// lines, and consume one response line per sent command.  A bad-parameter
/// reply fails with a configuration error; running out of responses fails
/// with a transport error; every other reply text is accepted.
pub fn run_init(commands: &Vec<Vec<u8>>, responses: &Vec<Vec<u8>>) -> (r: Result<(), RadioError>)
    ensures
        ({
            let need = nonempty_count(commands.deep_view(), commands@.len() as int);
            &&& (r is Ok <==> need <= responses@.len() && forall|j: int|
                0 <= j < need ==> (#[trigger] responses@[j])@ != lit_bytes("invalid_param"))
            &&& (r matches Err(e) ==> e.kind == ErrorKind::Config || e.kind
                == ErrorKind::Transport)
            &&& (r matches Err(e) ==> ((e.kind == ErrorKind::Config) <==> exists|j: int|
                0 <= j < need && j < responses@.len() && (#[trigger] responses@[j])@ == lit_bytes(
                    "invalid_param",
                )))
        }),
{
    let ghost need = nonempty_count(commands.deep_view(), commands@.len() as int);
    let mut i: usize = 0;
    let mut j: usize = 0;
    while i < commands.len()
        invariant
            need == nonempty_count(commands.deep_view(), commands@.len() as int),
            i <= commands@.len(),
            j <= responses@.len(),
            j == nonempty_count(commands.deep_view(), i as int),
            forall|k: int|
                0 <= k < j ==> (#[trigger] responses@[k])@ != lit_bytes("invalid_param"),
        decreases commands@.len() - i,
    {
        proof {
            assert(commands.deep_view()[i as int] == commands@[i as int]@);
            lemma_nonempty_mono(commands.deep_view(), i as int + 1, commands@.len() as int);
        }
        if commands[i].len() > 0 {
            if j >= responses.len() {
                return Err(RadioError::new(ErrorKind::Transport, "no response from radio"));
            }
            let resp = &responses[j];
            if bytes_eq(resp, &token_invalid_param()) {
                return Err(
                    RadioError::new(
                        ErrorKind::Config,
                        "Bad response from radio during initialization",
                    ),
                );
            }
            j = j + 1;
        }
        i = i + 1;
    }
    Ok(())
}

} // verus!
