//! The per-connection session state machine.
//!
//! A session starts awaiting the handshake, collects `VERB: value`
//! command lines until the body-start verb, collects folded header
//! blocks until a blank one, then stores the terminated body and
//! completes.  Any read failure, a bad handshake, a blank command line,
//! or too many consecutive unparseable lines aborts it.  Replies are the
//! fixed status strings of the wire protocol; the caller writes them to
//! the peer, one CRLF-terminated line each.

use vstd::prelude::*;

use crate::kvmap::KvMap;
use crate::scan::{bytes_eq, find_byte, spec_trim, spec_unfold, spec_upper, sub_bytes, to_upper,
    trim, unfold};

verus! {

/// How many consecutive unparseable command or header lines a session
/// tolerates before it gives up on the peer.
pub const UNPARSEABLE_LIMIT: u32 = 8;

/// Why a session ended without completing.
#[derive(Clone, Copy, Debug, PartialEq, Eq, Structural)]
pub enum SessionError {
    /// The peer closed the stream (or a read deadline elapsed) before a
    /// complete protocol unit arrived.
    ConnectionClosed,
    /// Bytes at a boundary expecting text were not valid UTF-8.
    DecodeError,
    /// The handshake verb was missing, a command line was blank, or the
    /// unparseable-line bound was exceeded.
    ProtocolError,
}

/// The states of the session state machine.
#[derive(Clone, Copy, Debug, PartialEq, Eq, Structural)]
pub enum SessionState {
    AwaitingHandshake,
    CollectingCommands,
    CollectingHeaders,
    CollectingBody,
    Complete,
    Aborted,
}

/// Which protocol unit the session wants next.
#[derive(Clone, Copy, Debug, PartialEq, Eq, Structural)]
pub enum ReadKind {
    /// A single CRLF-terminated line.
    Line,
    /// A folded header block.
    FoldedBlock,
    /// The dot-terminated body.
    BodyText,
    /// Nothing: the session is in a terminal state.
    Done,
}

/// The message a session accumulates for one connection.
pub struct Message {
    pub client_domain: Vec<u8>,
    pub smtp_commands: KvMap,
    pub atm_headers: KvMap,
    pub body: Vec<u8>,
    pub from: Vec<u8>,
    pub date: Vec<u8>,
    pub subject: Vec<u8>,
    pub to: Vec<u8>,
}

/// The mathematical image of a `Message`.
#[verifier::ext_equal]
pub struct MessageView {
    pub client_domain: Seq<u8>,
    pub smtp_commands: Map<Seq<u8>, Seq<u8>>,
    pub atm_headers: Map<Seq<u8>, Seq<u8>>,
    pub body: Seq<u8>,
    pub from: Seq<u8>,
    pub date: Seq<u8>,
    pub subject: Seq<u8>,
    pub to: Seq<u8>,
}

impl View for Message {
    type V = MessageView;

    open spec fn view(&self) -> MessageView {
        MessageView {
            client_domain: self.client_domain@,
            smtp_commands: self.smtp_commands@,
            atm_headers: self.atm_headers@,
            body: self.body@,
            from: self.from@,
            date: self.date@,
            subject: self.subject@,
            to: self.to@,
        }
    }
}

/// The empty message a fresh session starts from.
pub open spec fn empty_message_view() -> MessageView {
    MessageView {
        client_domain: Seq::empty(),
        smtp_commands: Map::empty(),
        atm_headers: Map::empty(),
        body: Seq::empty(),
        from: Seq::empty(),
        date: Seq::empty(),
        subject: Seq::empty(),
        to: Seq::empty(),
    }
}

impl Message {
    /// The key-value stores never hold two entries for one key.
    pub open spec fn wf(&self) -> bool {
        &&& self.smtp_commands.wf()
        &&& self.atm_headers.wf()
    }

    /// An empty message.
    pub fn new() -> (m: Message)
        ensures
            m.wf(),
            m@ == empty_message_view(),
    {
        let m = Message {
            client_domain: Vec::new(),
            smtp_commands: KvMap::new(),
            atm_headers: KvMap::new(),
            body: Vec::new(),
            from: Vec::new(),
            date: Vec::new(),
            subject: Vec::new(),
            to: Vec::new(),
        };
        proof {
            assert(m@ =~= empty_message_view());
        }
        m
    }
}

/// One session, from handshake to completion or abort.
pub struct Session {
    pub state: SessionState,
    pub message: Message,
    pub bad_lines: u32,
    pub failure: Option<SessionError>,
}

/// The mathematical image of a `Session`.
#[verifier::ext_equal]
pub struct SessionView {
    pub state: SessionState,
    pub message: MessageView,
    pub bad_lines: u32,
    pub failure: Option<SessionError>,
}

impl View for Session {
    type V = SessionView;

    open spec fn view(&self) -> SessionView {
        SessionView {
            state: self.state,
            message: self.message@,
            bad_lines: self.bad_lines,
            failure: self.failure,
        }
    }
}

/// The greeting reply `220`.
pub open spec fn reply_greeting() -> Seq<u8> {
    seq![50u8, 50u8, 48u8]
}

/// The handshake-accepted reply `250`.
pub open spec fn reply_handshake_ok() -> Seq<u8> {
    seq![50u8, 53u8, 48u8]
}

/// The body-ready reply `354`.
pub open spec fn reply_body_ready() -> Seq<u8> {
    seq![51u8, 53u8, 52u8]
}

/// The completion reply `250 OK`.
pub open spec fn reply_complete() -> Seq<u8> {
    seq![50u8, 53u8, 48u8, 32u8, 79u8, 75u8]
}

/// The handshake verb with its separating space, `HELO `.
pub open spec fn helo_prefix() -> Seq<u8> {
    seq![72u8, 69u8, 76u8, 79u8, 32u8]
}

/// The extended handshake verb with its separating space, `EHLO `.
pub open spec fn ehlo_prefix() -> Seq<u8> {
    seq![69u8, 72u8, 76u8, 79u8, 32u8]
}

/// The body-start verb `DATA`, matched case-insensitively.
pub open spec fn data_verb() -> Seq<u8> {
    seq![68u8, 65u8, 84u8, 65u8]
}

/// The distinguished header key `SUBJECT`.
pub open spec fn key_subject() -> Seq<u8> {
    seq![83u8, 85u8, 66u8, 74u8, 69u8, 67u8, 84u8]
}

/// The distinguished header key `TO`.
pub open spec fn key_to() -> Seq<u8> {
    seq![84u8, 79u8]
}

/// The distinguished header key `FROM`.
pub open spec fn key_from() -> Seq<u8> {
    seq![70u8, 82u8, 79u8, 77u8]
}

/// The distinguished header key `DATE`.
pub open spec fn key_date() -> Seq<u8> {
    seq![68u8, 65u8, 84u8, 69u8]
}

/// True when the line opens with either handshake verb and its space.
pub open spec fn is_handshake(s: Seq<u8>) -> bool {
    s.len() >= 5 && (s.take(5) == helo_prefix() || s.take(5) == ehlo_prefix())
}

/// The peer identity a handshake line carries: everything after the
/// verb and its one separating space.
pub open spec fn handshake_domain(s: Seq<u8>) -> Seq<u8> {
    s.skip(5)
}

/// True when the line holds nothing but whitespace.
pub open spec fn is_blank(s: Seq<u8>) -> bool {
    spec_trim(s).len() == 0
}

/// True when the trimmed line is the body-start verb, in any case.
pub open spec fn is_data_line(s: Seq<u8>) -> bool {
    spec_upper(spec_trim(s)) == data_verb()
}

/// True when `s` holds a colon.
pub open spec fn has_colon(s: Seq<u8>) -> bool {
    exists|i: int| 0 <= i < s.len() && s[i] == 58u8
}

/// The position of the first colon in `s`.
pub open spec fn first_colon_pos(s: Seq<u8>) -> int {
    choose|i: int|
        0 <= i < s.len() && s[i] == 58u8 && (forall|j: int| 0 <= j < i ==> s[j] != 58u8)
}

/// The key-value reading of a line: split at the first colon, the key
/// trimmed and upper-cased, the value trimmed.  A line without a colon
/// has no key.
pub open spec fn spec_parse_kv(s: Seq<u8>) -> Option<(Seq<u8>, Seq<u8>)> {
    if has_colon(s) {
        let i = first_colon_pos(s);
        Some((spec_upper(spec_trim(s.take(i))), spec_trim(s.skip(i + 1))))
    } else {
        None
    }
}

/// Pins down `first_colon_pos`: the first colon at `i` is the one the
/// spec speaks of.
pub proof fn lemma_first_colon_pos(s: Seq<u8>, i: int)
    requires
        0 <= i < s.len(),
        s[i] == 58u8,
        forall|j: int| 0 <= j < i ==> s[j] != 58u8,
    ensures
        has_colon(s),
        first_colon_pos(s) == i,
{
    let w = first_colon_pos(s);
    assert(0 <= w < s.len() && s[w] == 58u8 && (forall|j: int| 0 <= j < w ==> s[j] != 58u8));
    if w < i {
        assert(s[w] != 58u8);
    }
    if i < w {
        assert(s[i] != 58u8);
    }
}

/// Splits a line at its first colon into a normalized key and a trimmed
/// value.
pub fn parse_kv(line: &Vec<u8>) -> (r: Option<(Vec<u8>, Vec<u8>)>)
    ensures
        match r {
            Some(kv) => spec_parse_kv(line@) == Some((kv.0@, kv.1@)),
            None => spec_parse_kv(line@) is None,
        },
{
    match find_byte(line, 58) {
        Some(i) => {
            proof {
                lemma_first_colon_pos(line@, i as int);
            }
            let raw_key = sub_bytes(line, 0, i);
            let n: usize = line.len();
            let raw_val = sub_bytes(line, i + 1, n);
            let key = to_upper(&trim(&raw_key));
            let val = trim(&raw_val);
            proof {
                assert(raw_key@ =~= line@.take(i as int));
                assert(raw_val@ =~= line@.skip(i + 1));
            }
            Some((key, val))
        },
        None => {
            proof {
                if has_colon(line@) {
                    let e = choose|i: int| 0 <= i < line@.len() && line@[i] == 58u8;
                    assert(line@[e] == 58u8);
                    assert(false);
                }
            }
            None
        },
    }
}

impl Session {
    /// The stores are well formed and the unparseable-line count stays
    /// within its bound — strictly, while more lines can still arrive.
    pub open spec fn wf(&self) -> bool {
        &&& self.message.wf()
        &&& self.bad_lines <= UNPARSEABLE_LIMIT
        &&& (self.state is CollectingCommands || self.state is CollectingHeaders)
            ==> self.bad_lines < UNPARSEABLE_LIMIT
    }

    /// A fresh session awaiting its handshake.
    pub fn new() -> (s: Session)
        ensures
            s.wf(),
            s@ == (SessionView {
                state: SessionState::AwaitingHandshake,
                message: empty_message_view(),
                bad_lines: 0u32,
                failure: None,
            }),
    {
        let s = Session {
            state: SessionState::AwaitingHandshake,
            message: Message::new(),
            bad_lines: 0,
            failure: None,
        };
        proof {
            assert(s@ =~= (SessionView {
                state: SessionState::AwaitingHandshake,
                message: empty_message_view(),
                bad_lines: 0u32,
                failure: None,
            }));
        }
        s
    }

    /// The greeting sent to every peer on accept.
    pub fn greeting() -> (r: Vec<u8>)
        ensures
            r@ == reply_greeting(),
    {
        let r = vec![50u8, 50u8, 48u8];
        proof {
            assert(r@ =~= reply_greeting());
        }
        r
    }

    /// Which protocol unit the session wants next.
    pub fn next_read(&self) -> (k: ReadKind)
        ensures
            k == (match self.state {
                SessionState::AwaitingHandshake => ReadKind::Line,
                SessionState::CollectingCommands => ReadKind::Line,
                SessionState::CollectingHeaders => ReadKind::FoldedBlock,
                SessionState::CollectingBody => ReadKind::BodyText,
                SessionState::Complete => ReadKind::Done,
                SessionState::Aborted => ReadKind::Done,
            }),
    {
        match self.state {
            SessionState::AwaitingHandshake => ReadKind::Line,
            SessionState::CollectingCommands => ReadKind::Line,
            SessionState::CollectingHeaders => ReadKind::FoldedBlock,
            SessionState::CollectingBody => ReadKind::BodyText,
            SessionState::Complete => ReadKind::Done,
            SessionState::Aborted => ReadKind::Done,
        }
    }

    /// Handles the first line of a session.  A line opening with the
    /// handshake verb and one space captures the rest as the peer's
    /// identity and earns the handshake-accepted reply; anything else is
    /// a protocol error and aborts with no reply.
    pub fn on_handshake_line(&mut self, line: &Vec<u8>) -> (r: Option<Vec<u8>>)
        requires
            old(self).wf(),
            old(self).state is AwaitingHandshake,
        ensures
            final(self).wf(),
            is_handshake(line@) ==> {
                &&& final(self)@ == (SessionView {
                    state: SessionState::CollectingCommands,
                    message: MessageView {
                        client_domain: handshake_domain(line@),
                        ..old(self)@.message
                    },
                    bad_lines: 0u32,
                    ..old(self)@
                })
                &&& (match r {
                    Some(rep) => rep@ == reply_handshake_ok(),
                    None => false,
                })
            },
            !is_handshake(line@) ==> {
                &&& final(self)@ == (SessionView {
                    state: SessionState::Aborted,
                    failure: Some(SessionError::ProtocolError),
                    ..old(self)@
                })
                &&& r is None
            },
    {
        let helo = vec![72u8, 69u8, 76u8, 79u8, 32u8];
        let ehlo = vec![69u8, 72u8, 76u8, 79u8, 32u8];
        proof {
            assert(helo@ =~= helo_prefix());
            assert(ehlo@ =~= ehlo_prefix());
        }
        let n: usize = line.len();
        let matched = if n >= 5 {
            let head = sub_bytes(line, 0, 5);
            proof {
                assert(head@ =~= line@.take(5));
            }
            bytes_eq(head.as_slice(), helo.as_slice()) || bytes_eq(head.as_slice(), ehlo.as_slice())
        } else {
            false
        };
        if matched {
            self.message.client_domain = sub_bytes(line, 5, n);
            self.state = SessionState::CollectingCommands;
            self.bad_lines = 0;
            proof {
                assert(self.message.client_domain@ =~= handshake_domain(line@));
                assert(self@ =~= (SessionView {
                    state: SessionState::CollectingCommands,
                    message: MessageView {
                        client_domain: handshake_domain(line@),
                        ..old(self)@.message
                    },
                    bad_lines: 0u32,
                    ..old(self)@
                }));
            }
            let rep = vec![50u8, 53u8, 48u8];
            proof {
                assert(rep@ =~= reply_handshake_ok());
            }
            Some(rep)
        } else {
            self.state = SessionState::Aborted;
            self.failure = Some(SessionError::ProtocolError);
            proof {
                assert(self@ =~= (SessionView {
                    state: SessionState::Aborted,
                    failure: Some(SessionError::ProtocolError),
                    ..old(self)@
                }));
            }
            None
        }
    }

    /// Handles one line of the command phase, as the transition table
    /// gives it: a blank line aborts; the body-start verb earns the
    /// body-ready reply and opens the header phase; a `VERB: value` line
    /// is stored under its normalized key; a line with no colon is
    /// retried, and aborts once it is the limit-th in a row.
    pub fn on_command_line(&mut self, line: &Vec<u8>) -> (r: Option<Vec<u8>>)
        requires
            old(self).wf(),
            old(self).state is CollectingCommands,
        ensures
            final(self).wf(),
            is_blank(line@) ==> {
                &&& final(self)@ == (SessionView {
                    state: SessionState::Aborted,
                    failure: Some(SessionError::ProtocolError),
                    ..old(self)@
                })
                &&& r is None
            },
            !is_blank(line@) && is_data_line(line@) ==> {
                &&& final(self)@ == (SessionView {
                    state: SessionState::CollectingHeaders,
                    bad_lines: 0u32,
                    ..old(self)@
                })
                &&& (match r {
                    Some(rep) => rep@ == reply_body_ready(),
                    None => false,
                })
            },
            (!is_blank(line@) && !is_data_line(line@)) ==> match spec_parse_kv(line@) {
                Some(kv) => {
                    &&& final(self)@ == (SessionView {
                        message: MessageView {
                            smtp_commands: old(self)@.message.smtp_commands.insert(kv.0, kv.1),
                            ..old(self)@.message
                        },
                        bad_lines: 0u32,
                        ..old(self)@
                    })
                    &&& r is None
                },
                None => {
                    &&& r is None
                    &&& (if old(self).bad_lines + 1 < UNPARSEABLE_LIMIT {
                        final(self)@ == (SessionView {
                            bad_lines: (old(self).bad_lines + 1) as u32,
                            ..old(self)@
                        })
                    } else {
                        final(self)@ == (SessionView {
                            state: SessionState::Aborted,
                            failure: Some(SessionError::ProtocolError),
                            bad_lines: (old(self).bad_lines + 1) as u32,
                            ..old(self)@
                        })
                    })
                },
            },
    {
        let trimmed = trim(line);
        if trimmed.len() == 0 {
            self.state = SessionState::Aborted;
            self.failure = Some(SessionError::ProtocolError);
            proof {
                assert(self@ =~= (SessionView {
                    state: SessionState::Aborted,
                    failure: Some(SessionError::ProtocolError),
                    ..old(self)@
                }));
            }
            return None;
        }
        let upper = to_upper(&trimmed);
        let data = vec![68u8, 65u8, 84u8, 65u8];
        proof {
            assert(data@ =~= data_verb());
        }
        if bytes_eq(upper.as_slice(), data.as_slice()) {
            self.state = SessionState::CollectingHeaders;
            self.bad_lines = 0;
            proof {
                assert(self@ =~= (SessionView {
                    state: SessionState::CollectingHeaders,
                    bad_lines: 0u32,
                    ..old(self)@
                }));
            }
            let rep = vec![51u8, 53u8, 52u8];
            proof {
                assert(rep@ =~= reply_body_ready());
            }
            return Some(rep);
        }
        match parse_kv(line) {
            Some((key, val)) => {
                self.message.smtp_commands.insert(key, val);
                self.bad_lines = 0;
                proof {
                    let kv = spec_parse_kv(line@)->Some_0;
                    assert(self@ =~= (SessionView {
                        message: MessageView {
                            smtp_commands: old(self)@.message.smtp_commands.insert(kv.0, kv.1),
                            ..old(self)@.message
                        },
                        bad_lines: 0u32,
                        ..old(self)@
                    }));
                }
                None
            },
            None => {
                self.bad_lines = self.bad_lines + 1;
                if self.bad_lines >= UNPARSEABLE_LIMIT {
                    self.state = SessionState::Aborted;
                    self.failure = Some(SessionError::ProtocolError);
                    proof {
                        assert(self@ =~= (SessionView {
                            state: SessionState::Aborted,
                            failure: Some(SessionError::ProtocolError),
                            bad_lines: (old(self).bad_lines + 1) as u32,
                            ..old(self)@
                        }));
                    }
                } else {
                    proof {
                        assert(self@ =~= (SessionView {
                            bad_lines: (old(self).bad_lines + 1) as u32,
                            ..old(self)@
                        }));
                    }
                }
                None
            },
        }
    }

    /// Handles one folded header block: a blank block ends the header
    /// phase; a block with a colon is unfolded, split, stored under its
    /// normalized key, and mirrored into the distinguished field that
    /// key names, if any; a block with no colon is retried under the
    /// same bound as command lines.
    pub fn on_header_block(&mut self, block: &Vec<u8>)
        requires
            old(self).wf(),
            old(self).state is CollectingHeaders,
        ensures
            final(self).wf(),
            is_blank(block@) ==> final(self)@ == (SessionView {
                state: SessionState::CollectingBody,
                ..old(self)@
            }),
            !is_blank(block@) ==> match spec_parse_kv(spec_unfold(block@)) {
                Some(kv) => final(self)@ == (SessionView {
                    message: MessageView {
                        atm_headers: old(self)@.message.atm_headers.insert(kv.0, kv.1),
                        subject: if kv.0 == key_subject() {
                            kv.1
                        } else {
                            old(self)@.message.subject
                        },
                        to: if kv.0 == key_to() {
                            kv.1
                        } else {
                            old(self)@.message.to
                        },
                        from: if kv.0 == key_from() {
                            kv.1
                        } else {
                            old(self)@.message.from
                        },
                        date: if kv.0 == key_date() {
                            kv.1
                        } else {
                            old(self)@.message.date
                        },
                        ..old(self)@.message
                    },
                    bad_lines: 0u32,
                    ..old(self)@
                }),
                None => (if old(self).bad_lines + 1 < UNPARSEABLE_LIMIT {
                    final(self)@ == (SessionView {
                        bad_lines: (old(self).bad_lines + 1) as u32,
                        ..old(self)@
                    })
                } else {
                    final(self)@ == (SessionView {
                        state: SessionState::Aborted,
                        failure: Some(SessionError::ProtocolError),
                        bad_lines: (old(self).bad_lines + 1) as u32,
                        ..old(self)@
                    })
                }),
            },
    {
        let trimmed = trim(block);
        if trimmed.len() == 0 {
            self.state = SessionState::CollectingBody;
            proof {
                assert(self@ =~= (SessionView { state: SessionState::CollectingBody, ..old(self)@
                }));
            }
            return ;
        }
        let unfolded = unfold(block);
        match parse_kv(&unfolded) {
            Some((key, val)) => {
                let subject_key = vec![83u8, 85u8, 66u8, 74u8, 69u8, 67u8, 84u8];
                let to_key = vec![84u8, 79u8];
                let from_key = vec![70u8, 82u8, 79u8, 77u8];
                let date_key = vec![68u8, 65u8, 84u8, 69u8];
                proof {
                    assert(subject_key@ =~= key_subject());
                    assert(to_key@ =~= key_to());
                    assert(from_key@ =~= key_from());
                    assert(date_key@ =~= key_date());
                }
                if bytes_eq(key.as_slice(), subject_key.as_slice()) {
                    self.message.subject = sub_bytes(&val, 0, val.len());
                } else if bytes_eq(key.as_slice(), to_key.as_slice()) {
                    self.message.to = sub_bytes(&val, 0, val.len());
                } else if bytes_eq(key.as_slice(), from_key.as_slice()) {
                    self.message.from = sub_bytes(&val, 0, val.len());
                } else if bytes_eq(key.as_slice(), date_key.as_slice()) {
                    self.message.date = sub_bytes(&val, 0, val.len());
                }
                self.message.atm_headers.insert(key, val);
                self.bad_lines = 0;
                proof {
                    let kv = spec_parse_kv(spec_unfold(block@))->Some_0;
                    assert(self@ =~= (SessionView {
                        message: MessageView {
                            atm_headers: old(self)@.message.atm_headers.insert(kv.0, kv.1),
                            subject: if kv.0 == key_subject() {
                                kv.1
                            } else {
                                old(self)@.message.subject
                            },
                            to: if kv.0 == key_to() {
                                kv.1
                            } else {
                                old(self)@.message.to
                            },
                            from: if kv.0 == key_from() {
                                kv.1
                            } else {
                                old(self)@.message.from
                            },
                            date: if kv.0 == key_date() {
                                kv.1
                            } else {
                                old(self)@.message.date
                            },
                            ..old(self)@.message
                        },
                        bad_lines: 0u32,
                        ..old(self)@
                    }));
                }
            },
            None => {
                self.bad_lines = self.bad_lines + 1;
                if self.bad_lines >= UNPARSEABLE_LIMIT {
                    self.state = SessionState::Aborted;
                    self.failure = Some(SessionError::ProtocolError);
                    proof {
                        assert(self@ =~= (SessionView {
                            state: SessionState::Aborted,
                            failure: Some(SessionError::ProtocolError),
                            bad_lines: (old(self).bad_lines + 1) as u32,
                            ..old(self)@
                        }));
                    }
                } else {
                    proof {
                        assert(self@ =~= (SessionView {
                            bad_lines: (old(self).bad_lines + 1) as u32,
                            ..old(self)@
                        }));
                    }
                }
            },
        }
    }

    /// Stores the terminated body and completes the session, earning
    /// the completion reply.
    pub fn on_body(&mut self, body: Vec<u8>) -> (r: Vec<u8>)
        requires
            old(self).wf(),
            old(self).state is CollectingBody,
        ensures
            final(self).wf(),
            final(self)@ == (SessionView {
                state: SessionState::Complete,
                message: MessageView { body: body@, ..old(self)@.message },
                ..old(self)@
            }),
            r@ == reply_complete(),
    {
        self.message.body = body;
        self.state = SessionState::Complete;
        proof {
            assert(self@ =~= (SessionView {
                state: SessionState::Complete,
                message: MessageView { body: body@, ..old(self)@.message },
                ..old(self)@
            }));
        }
        let r = vec![50u8, 53u8, 48u8, 32u8, 79u8, 75u8];
        proof {
            assert(r@ =~= reply_complete());
        }
        r
    }

    /// Records a failed read — the peer closed, a deadline elapsed, or
    /// a line was not text — and aborts: any read failure is terminal
    /// for the session, whatever state it was in.
    pub fn on_read_failure(&mut self, kind: SessionError)
        requires
            old(self).wf(),
        ensures
            final(self).wf(),
            final(self)@ == (SessionView {
                state: SessionState::Aborted,
                failure: Some(kind),
                ..old(self)@
            }),
    {
        self.state = SessionState::Aborted;
        self.failure = Some(kind);
        proof {
            assert(self@ =~= (SessionView {
                state: SessionState::Aborted,
                failure: Some(kind),
                ..old(self)@
            }));
        }
    }
}

/// Hands out the monotonically increasing connection identifiers: two
/// accepts never share one, and later accepts get larger ones.
pub struct IdCounter {
    pub next_id: u32,
}

impl IdCounter {
    /// A counter starting at the first identifier.
    pub fn new() -> (c: IdCounter)
        ensures
            c.next_id == 1u32,
    {
        IdCounter { next_id: 1 }
    }

    /// Takes the next identifier.  Each call returns a value strictly
    /// larger than every value returned before it, so identifiers are
    /// never reused.
    pub fn take(&mut self) -> (id: u32)
        requires
            old(self).next_id < u32::MAX,
        ensures
            id == old(self).next_id,
            final(self).next_id == old(self).next_id + 1,
    {
        let id: u32 = self.next_id;
        self.next_id = self.next_id + 1;
        id
    }
}

} // verus!
