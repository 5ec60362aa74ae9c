//! Session behavior: command and header collection, the end-to-end
//! scenarios, and identifier uniqueness across many sessions.

use smtp_session::frame::{FrameBuffer, LineStep};
use smtp_session::kvmap::KvMap;
use smtp_session::session::{IdCounter, ReadKind, Session, SessionError, SessionState};

/// Runs one session over `input`, fed in chunks of `chunk` bytes, and
/// returns the finished session and every reply it sent, greeting
/// included.
fn run_session(input: &[u8], chunk: usize) -> (Session, Vec<Vec<u8>>) {
    let mut fb = FrameBuffer::new();
    let mut session = Session::new();
    let mut replies = vec![Session::greeting()];
    let mut pos = 0;
    loop {
        let mut feed_more = |fb: &mut FrameBuffer, pos: &mut usize| -> bool {
            if *pos >= input.len() {
                return false;
            }
            let end = (*pos + chunk).min(input.len());
            fb.feed(&input[*pos..end]);
            *pos = end;
            true
        };
        match session.next_read() {
            ReadKind::Line => match fb.try_line() {
                LineStep::Line(line) => {
                    let reply = if session.state == SessionState::AwaitingHandshake {
                        session.on_handshake_line(&line)
                    } else {
                        session.on_command_line(&line)
                    };
                    if let Some(rep) = reply {
                        replies.push(rep);
                    }
                }
                LineStep::Invalid => session.on_read_failure(SessionError::DecodeError),
                LineStep::NeedMore => {
                    if !feed_more(&mut fb, &mut pos) {
                        session.on_read_failure(SessionError::ConnectionClosed);
                    }
                }
            },
            ReadKind::FoldedBlock => match fb.try_folded_block() {
                Some(block) => session.on_header_block(&block),
                None => {
                    if !feed_more(&mut fb, &mut pos) {
                        session.on_read_failure(SessionError::ConnectionClosed);
                    }
                }
            },
            ReadKind::BodyText => match fb.try_body() {
                Some(body) => {
                    let rep = session.on_body(body);
                    replies.push(rep);
                }
                None => {
                    if !feed_more(&mut fb, &mut pos) {
                        session.on_read_failure(SessionError::ConnectionClosed);
                    }
                }
            },
            ReadKind::Done => return (session, replies),
        }
    }
}

const SCENARIO_A: &[u8] = b"HELO example.com\r\nFROM: a@example.com\r\nTO: b@example.com\r\nDATA\r\nSubject: Hi\r\nFrom: a@example.com\r\n\r\nHello there\r\n.\r\n";

#[test]
fn scenario_a_completes() {
    let (session, replies) = run_session(SCENARIO_A, SCENARIO_A.len());
    assert_eq!(session.state, SessionState::Complete);
    assert_eq!(
        replies,
        vec![
            b"220".to_vec(),
            b"250".to_vec(),
            b"354".to_vec(),
            b"250 OK".to_vec(),
        ]
    );
    assert_eq!(session.message.client_domain, b"example.com".to_vec());
    assert_eq!(session.message.subject, b"Hi".to_vec());
    assert_eq!(session.message.from, b"a@example.com".to_vec());
    assert_eq!(session.message.body, b"Hello there".to_vec());
    assert_eq!(
        session.message.smtp_commands.get(&b"FROM".to_vec()),
        Some(&b"a@example.com".to_vec())
    );
    assert_eq!(
        session.message.smtp_commands.get(&b"TO".to_vec()),
        Some(&b"b@example.com".to_vec())
    );
}

#[test]
fn scenario_a_completes_one_byte_at_a_time() {
    let (whole, whole_replies) = run_session(SCENARIO_A, SCENARIO_A.len());
    for chunk in [1usize, 2, 3, 7] {
        let (session, replies) = run_session(SCENARIO_A, chunk);
        assert_eq!(session.state, SessionState::Complete);
        assert_eq!(replies, whole_replies);
        assert_eq!(session.message.subject, whole.message.subject);
        assert_eq!(session.message.body, whole.message.body);
    }
}

#[test]
fn scenario_b_bad_handshake_aborts() {
    let input = b"NOPE example.com\r\n";
    let (session, replies) = run_session(input, input.len());
    assert_eq!(session.state, SessionState::Aborted);
    assert_eq!(session.failure, Some(SessionError::ProtocolError));
    // Only the greeting went out: no handshake-accepted reply.
    assert_eq!(replies, vec![b"220".to_vec()]);
}

#[test]
fn scenario_c_many_sessions_stay_separate() {
    let mut counter = IdCounter::new();
    let mut ids = Vec::new();
    for k in 0..100u32 {
        let domain = format!("host{}.example.com", k);
        let subject = format!("Hi {}", k);
        let input = format!(
            "EHLO {}\r\nFROM: a@example.com\r\nDATA\r\nSubject: {}\r\n\r\nBody {}\r\n.\r\n",
            domain, subject, k
        );
        let id = counter.take();
        let (session, replies) = run_session(input.as_bytes(), 3);
        assert_eq!(session.state, SessionState::Complete);
        assert_eq!(replies.len(), 4);
        assert_eq!(session.message.client_domain, domain.into_bytes());
        assert_eq!(session.message.subject, subject.into_bytes());
        assert_eq!(session.message.body, format!("Body {}", k).into_bytes());
        ids.push(id);
    }
    for w in ids.windows(2) {
        assert!(w[0] < w[1], "identifiers must increase monotonically");
    }
}

#[test]
fn ehlo_handshake_accepted() {
    let input = b"EHLO localhost\r\n";
    let (session, replies) = run_session(input, input.len());
    // The handshake succeeded and the command phase timed out on the
    // closed stream afterwards.
    assert_eq!(replies[0], b"220".to_vec());
    assert_eq!(replies[1], b"250".to_vec());
    assert_eq!(session.message.client_domain, b"localhost".to_vec());
}

#[test]
fn blank_command_line_aborts() {
    let input = b"HELO x\r\n\r\n";
    let (session, replies) = run_session(input, input.len());
    assert_eq!(session.state, SessionState::Aborted);
    assert_eq!(session.failure, Some(SessionError::ProtocolError));
    assert_eq!(replies, vec![b"220".to_vec(), b"250".to_vec()]);
}

#[test]
fn unparseable_lines_abort_after_bound() {
    let mut session = Session::new();
    let ok = session.on_handshake_line(&b"HELO x".to_vec());
    assert!(ok.is_some());
    for _ in 0..7 {
        let r = session.on_command_line(&b"no colon here".to_vec());
        assert!(r.is_none());
        assert_eq!(session.state, SessionState::CollectingCommands);
    }
    session.on_command_line(&b"still no colon".to_vec());
    assert_eq!(session.state, SessionState::Aborted);
    assert_eq!(session.failure, Some(SessionError::ProtocolError));
}

#[test]
fn unparseable_count_resets_on_good_line() {
    let mut session = Session::new();
    session.on_handshake_line(&b"HELO x".to_vec());
    for round in 0..5 {
        for _ in 0..6 {
            session.on_command_line(&b"gibberish".to_vec());
        }
        let r = session.on_command_line(&b"KEY: value".to_vec());
        assert!(r.is_none());
        assert_eq!(
            session.state,
            SessionState::CollectingCommands,
            "round {}",
            round
        );
    }
}

#[test]
fn command_map_last_write_wins() {
    let mut map = KvMap::new();
    map.insert(b"KEY".to_vec(), b"V1".to_vec());
    map.insert(b"KEY".to_vec(), b"V2".to_vec());
    assert_eq!(map.len(), 1);
    assert_eq!(map.get(&b"KEY".to_vec()), Some(&b"V2".to_vec()));
}

#[test]
fn command_overwrite_through_session() {
    let input = b"HELO x\r\nVERB: V1\r\nVERB: V2\r\nDATA\r\n";
    let (session, _) = run_session(input, input.len());
    assert_eq!(session.message.smtp_commands.len(), 1);
    assert_eq!(
        session.message.smtp_commands.get(&b"VERB".to_vec()),
        Some(&b"V2".to_vec())
    );
}

#[test]
fn folded_header_yields_single_value() {
    let input = b"HELO x\r\nDATA\r\nSubject: Hello\r\n World\r\n\r\nb\r\n.\r\n";
    let (session, _) = run_session(input, input.len());
    assert_eq!(session.state, SessionState::Complete);
    assert_eq!(session.message.subject, b"Hello World".to_vec());
    assert_eq!(
        session.message.atm_headers.get(&b"SUBJECT".to_vec()),
        Some(&b"Hello World".to_vec())
    );
}

#[test]
fn command_keys_are_case_normalized() {
    let input = b"HELO x\r\nmail from: <a@b>\r\nDATA\r\n";
    let (session, _) = run_session(input, input.len());
    assert_eq!(
        session.message.smtp_commands.get(&b"MAIL FROM".to_vec()),
        Some(&b"<a@b>".to_vec())
    );
}

#[test]
fn header_mirrors_to_from_date() {
    let input =
        b"HELO x\r\nDATA\r\nTo: t@x\r\nFrom: f@x\r\nDate: Mon\r\nOther: o\r\n\r\nb\r\n.\r\n";
    let (session, _) = run_session(input, input.len());
    assert_eq!(session.state, SessionState::Complete);
    assert_eq!(session.message.to, b"t@x".to_vec());
    assert_eq!(session.message.from, b"f@x".to_vec());
    assert_eq!(session.message.date, b"Mon".to_vec());
    assert_eq!(
        session.message.atm_headers.get(&b"OTHER".to_vec()),
        Some(&b"o".to_vec())
    );
    assert_eq!(session.message.atm_headers.len(), 4);
}

#[test]
fn connection_closed_mid_body_aborts() {
    let input = b"HELO x\r\nDATA\r\n\r\nnever terminated";
    let (session, replies) = run_session(input, input.len());
    assert_eq!(session.state, SessionState::Aborted);
    assert_eq!(session.failure, Some(SessionError::ConnectionClosed));
    assert_eq!(replies, vec![b"220".to_vec(), b"250".to_vec(), b"354".to_vec()]);
}

#[test]
fn non_text_line_aborts_with_decode_error() {
    let mut input = b"HELO x\r\n".to_vec();
    input.extend_from_slice(&[0xff, 0xfe, b'\r', b'\n']);
    let (session, replies) = run_session(&input, input.len());
    assert_eq!(session.state, SessionState::Aborted);
    assert_eq!(session.failure, Some(SessionError::DecodeError));
    assert_eq!(replies, vec![b"220".to_vec(), b"250".to_vec()]);
}

#[test]
fn data_verb_is_case_insensitive() {
    let input = b"HELO x\r\ndata\r\n\r\nb\r\n.\r\n";
    let (session, replies) = run_session(input, input.len());
    assert_eq!(session.state, SessionState::Complete);
    assert_eq!(replies.len(), 4);
    assert_eq!(replies[2], b"354".to_vec());
}
