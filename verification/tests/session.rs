use meshtnc::codec::{decode, FramedUnit, SessionMode};
use meshtnc::session::{radio_command, Action, RadioParams, Session, SessionError};

fn params() -> RadioParams {
    RadioParams {
        freq: b"910.525".to_vec(),
        bw: b"62.5".to_vec(),
        sf: 7,
        cr: 5,
        sb: b"0x12".to_vec(),
    }
}

fn line(bytes: &[u8]) -> FramedUnit {
    FramedUnit::AsciiLine(bytes.to_vec())
}

#[test]
fn radio_command_formats_decimals_and_commas() {
    let cmd = radio_command(&params());
    assert_eq!(cmd, b"set radio 910.525,62.5,7,5,0x12".to_vec());
}

#[test]
fn radio_command_three_digit_values() {
    let p = RadioParams {
        freq: b"868".to_vec(),
        bw: b"250".to_vec(),
        sf: 12,
        cr: 8,
        sb: b"0xAB".to_vec(),
    };
    assert_eq!(radio_command(&p), b"set radio 868,250,12,8,0xAB".to_vec());
}

#[test]
fn happy_path_to_idle() {
    let mut s = Session::new(params());
    assert_eq!(s.mode, SessionMode::Starting);

    // Noise before the banner is ignored.
    assert_eq!(s.on_unit(line(b"noise\n")), Action::Ignore);
    assert_eq!(s.mode, SessionMode::Starting);

    // The banner triggers the radio command.
    match s.on_unit(line(b"Starting!\n")) {
        Action::Send(cmd) => {
            assert_eq!(cmd, b"set radio 910.525,62.5,7,5,0x12".to_vec());
        }
        other => panic!("expected a send, got {:?}", other),
    }
    assert_eq!(s.mode, SessionMode::RadioSet);

    // The acknowledgement moves the session to Idle.
    assert_eq!(s.on_unit(line(b"set radio OK\n")), Action::RadioReady);
    assert_eq!(s.mode, SessionMode::Idle);
}

#[test]
fn radio_rejection_is_terminal() {
    let mut s = Session::new(params());
    assert!(matches!(s.on_unit(line(b"Starting!\n")), Action::Send(_)));
    assert_eq!(
        s.on_unit(line(b"Error: bad SF\n")),
        Action::Fatal(SessionError::RadioRejected)
    );
}

#[test]
fn radioset_ignores_unrelated_lines() {
    let mut s = Session::new(params());
    assert!(matches!(s.on_unit(line(b"Starting!\n")), Action::Send(_)));
    assert_eq!(s.on_unit(line(b"warming up\n")), Action::Ignore);
    assert_eq!(s.mode, SessionMode::RadioSet);
}

#[test]
fn ok_is_matched_as_a_substring() {
    let mut s = Session::new(params());
    assert!(matches!(s.on_unit(line(b"Starting!\n")), Action::Send(_)));
    assert_eq!(s.on_unit(line(b"*OK*\n")), Action::RadioReady);
    assert_eq!(s.mode, SessionMode::Idle);
}

#[test]
fn banner_requires_exact_trimmed_match() {
    let mut s = Session::new(params());
    assert_eq!(s.on_unit(line(b"Starting!!\n")), Action::Ignore);
    assert_eq!(s.mode, SessionMode::Starting);
    assert!(matches!(s.on_unit(line(b"  Starting!  \n")), Action::Send(_)));
}

#[test]
fn idle_delivers_wellformed_rxlog() {
    let mut s = Session::new(params());
    assert!(matches!(s.on_unit(line(b"Starting!\n")), Action::Send(_)));
    assert_eq!(s.on_unit(line(b"OK\n")), Action::RadioReady);
    match s.on_unit(line(b"12345,RXLOG,-92.5,7.25,DEADBEEF\n")) {
        Action::Deliver(rec) => {
            assert_eq!(rec.timestamp, 12345);
            assert_eq!(rec.rssi, Some(b"-92.5".to_vec()));
            assert_eq!(rec.snr, Some(b"7.25".to_vec()));
            assert_eq!(rec.payload, vec![0xDE, 0xAD, 0xBE, 0xEF]);
        }
        other => panic!("expected a delivery, got {:?}", other),
    }
    assert_eq!(s.mode, SessionMode::Idle);
}

#[test]
fn malformed_rxlog_never_terminates_and_never_moves_the_mode() {
    let mut s = Session::new(params());
    assert!(matches!(s.on_unit(line(b"Starting!\n")), Action::Send(_)));
    assert_eq!(s.on_unit(line(b"OK\n")), Action::RadioReady);
    // Bad hex, wrong arity, junk: all dropped, session alive, mode Idle.
    assert_eq!(s.on_unit(line(b"99,RXLOG,-80,5,ZZ\n")), Action::Ignore);
    assert_eq!(s.mode, SessionMode::Idle);
    assert_eq!(s.on_unit(line(b"99,RXLOG,1\n")), Action::Ignore);
    assert_eq!(s.mode, SessionMode::Idle);
    assert_eq!(s.on_unit(line(b"complete junk\n")), Action::Ignore);
    assert_eq!(s.mode, SessionMode::Idle);
    // It still delivers afterwards.
    assert!(matches!(
        s.on_unit(line(b"99,RXLOG,,5,AA\n")),
        Action::Deliver(_)
    ));
}

#[test]
fn resync_from_unknown() {
    // In Unknown, the codec drains everything: the banner in the middle of
    // the drained bytes triggers nothing.
    let mut buf = b"anything at all\nStarting!\n".to_vec();
    assert_eq!(decode(SessionMode::Unknown, &mut buf), Ok(None));
    assert!(buf.is_empty());

    // Only after an external reset to Starting does the next banner
    // trigger the radio command.
    let mut s = Session::new(params());
    buf.extend_from_slice(b"Starting!\n");
    match decode(s.mode, &mut buf) {
        Ok(Some(unit)) => {
            assert!(matches!(s.on_unit(unit), Action::Send(_)));
        }
        other => panic!("expected a unit, got {:?}", other),
    }
    assert_eq!(s.mode, SessionMode::RadioSet);
}

#[test]
fn idle_tolerates_lines_containing_error() {
    let mut s = Session::new(params());
    assert!(matches!(s.on_unit(line(b"Starting!\n")), Action::Send(_)));
    assert_eq!(s.on_unit(line(b"OK\n")), Action::RadioReady);
    // Once idle, "Error" in a log line is no longer terminal.
    assert_eq!(s.on_unit(line(b"Error: spurious\n")), Action::Ignore);
    assert_eq!(s.mode, SessionMode::Idle);
}

#[test]
fn ok_wins_over_error_in_one_line() {
    let mut s = Session::new(params());
    assert!(matches!(s.on_unit(line(b"Starting!\n")), Action::Send(_)));
    assert_eq!(s.on_unit(line(b"OK despite Error\n")), Action::RadioReady);
    assert_eq!(s.mode, SessionMode::Idle);
}

#[test]
fn kiss_frames_stop_the_session() {
    let mut s = Session::new(params());
    assert_eq!(s.on_unit(FramedUnit::KissFrame(vec![0xC0])), Action::Stop);
}
