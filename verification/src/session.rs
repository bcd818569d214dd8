//! The per-connection session: a state machine from handshake through
//! active messaging to teardown. It consumes one transport event at a time
//! (a received line, or the end of the stream) and answers with the one
//! directive the connection's driver must carry out against the room.

use crate::text::{lower_of, lowercase, trim_line, trim_of};
use vstd::prelude::*;
use vstd::string::StrSliceExecFns;
use vstd::string::StringExecFns;

verus! {

#[derive(Clone, Copy, Debug)]
pub enum SessionState {
    /// Waiting for the first handshake line, the username.
    AwaitingUsername,
    /// Waiting for the second handshake line, the room name.
    AwaitingRoomName,
    /// Joined a room; every further line is a message.
    Active,
    /// Done: the driver deregisters the handle and releases the transport.
    Terminated,
}

/// One transport event, as the line-framing layer reports it.
pub enum Event {
    /// A full line arrived, terminator included or not; it is trimmed here.
    LineRead(String),
    /// End of stream or read failure: the peer is gone.
    ConnectionClosed,
}

/// What the driver must do next. At most one room operation per event.
pub enum Directive {
    /// Nothing: a handshake line was stored, or a blank line was ignored.
    Idle,
    /// Join `room_name` (creating it if absent) and broadcast the arrival
    /// announcement there.
    JoinRoom { room_name: String, announcement: String },
    /// Broadcast this sender-prefixed message to the session's room.
    Deliver { message: String },
    /// Broadcast the departure announcement, then deregister and close.
    AnnounceDeparture { message: String },
    /// Deregister (if a room was joined) and close, with no announcement.
    Teardown,
}

/// Mathematical model of a session.
#[verifier::ext_equal]
pub struct SessionModel {
    pub state: SessionState,
    pub username: Seq<char>,
    pub room_name: Seq<char>,
}

/// The arrival announcement broadcast on join.
pub open spec fn joined_announcement(username: Seq<char>) -> Seq<char> {
    username + " has joined the room"@
}

/// The departure announcement broadcast on an explicit exit. Note the
/// trailing period, which the arrival announcement does not have.
pub open spec fn departure_announcement(username: Seq<char>) -> Seq<char> {
    username + " has left the room."@
}

/// An ordinary message as the room sees it: sender-prefixed.
pub open spec fn chat_line(username: Seq<char>, body: Seq<char>) -> Seq<char> {
    username + ": "@ + body
}

/// A trimmed line that asks to leave: the exit word, case-insensitively.
pub open spec fn is_exit_line(t: Seq<char>) -> bool {
    lower_of(t) == "exit"@
}

pub struct Session {
    state: SessionState,
    username: String,
    room_name: String,
}

impl View for Session {
    type V = SessionModel;

    closed spec fn view(&self) -> SessionModel {
        SessionModel { state: self.state, username: self.username@, room_name: self.room_name@ }
    }
}

impl Session {
    /// A session for a freshly accepted connection, before any line.
    pub fn new() -> (s: Session)
        ensures
            s@ == (SessionModel {
                state: SessionState::AwaitingUsername,
                username: Seq::empty(),
                room_name: Seq::empty(),
            }),
    {
        let s = Session {
            state: SessionState::AwaitingUsername,
            username: String::new(),
            room_name: String::new(),
        };
        proof {
            assert(s@ =~~= (SessionModel {
                state: SessionState::AwaitingUsername,
                username: Seq::empty(),
                room_name: Seq::empty(),
            }));
        }
        s
    }

    pub fn username(&self) -> (r: &String)
        ensures
            r@ == self@.username,
    {
        &self.username
    }

    pub fn room_name(&self) -> (r: &String)
        ensures
            r@ == self@.room_name,
    {
        &self.room_name
    }

    pub fn is_terminated(&self) -> (r: bool)
        ensures
            r == (self@.state is Terminated),
    {
        matches!(self.state, SessionState::Terminated)
    }

    pub fn is_active(&self) -> (r: bool)
        ensures
            r == (self@.state is Active),
    {
        matches!(self.state, SessionState::Active)
    }

    /// Advance the state machine by one transport event and say what the
    /// driver must do. The handshake stores the trimmed username, then the
    /// trimmed room name (announcing the arrival); in the active state a
    /// blank line is ignored, the exit word (case-insensitive) announces
    /// departure and terminates, any other line is delivered
    /// sender-prefixed. A closed connection terminates silently, with no
    /// departure announcement, in every state.
    pub fn on_event(&mut self, ev: Event) -> (d: Directive)
        requires
            !(old(self)@.state is Terminated),
        ensures
            ({
                let pre = old(self)@;
                let post = final(self)@;
                match ev {
                    Event::ConnectionClosed => {
                        &&& post == (SessionModel { state: SessionState::Terminated, ..pre })
                        &&& d is Teardown
                    },
                    Event::LineRead(l) => match pre.state {
                        SessionState::AwaitingUsername => {
                            &&& post == (SessionModel {
                                state: SessionState::AwaitingRoomName,
                                username: trim_of(l@),
                                room_name: pre.room_name,
                            })
                            &&& d is Idle
                        },
                        SessionState::AwaitingRoomName => {
                            &&& post == (SessionModel {
                                state: SessionState::Active,
                                username: pre.username,
                                room_name: trim_of(l@),
                            })
                            &&& (d matches Directive::JoinRoom { room_name, announcement }
                                && room_name@ == trim_of(l@) && announcement@
                                == joined_announcement(pre.username))
                        },
                        SessionState::Active => {
                            let t = trim_of(l@);
                            if t.len() == 0 {
                                &&& post == pre
                                &&& d is Idle
                            } else if is_exit_line(t) {
                                &&& post == (SessionModel {
                                    state: SessionState::Terminated,
                                    ..pre
                                })
                                &&& (d matches Directive::AnnounceDeparture { message }
                                    && message@ == departure_announcement(pre.username))
                            } else {
                                &&& post == pre
                                &&& (d matches Directive::Deliver { message } && message@
                                    == chat_line(pre.username, t))
                            }
                        },
                        SessionState::Terminated => false,
                    },
                }
            }),
    {
        match ev {
            Event::ConnectionClosed => {
                self.state = SessionState::Terminated;
                proof {
                    assert(self@ =~~= (SessionModel {
                        state: SessionState::Terminated,
                        ..old(self)@
                    }));
                }
                Directive::Teardown
            },
            Event::LineRead(line) => match self.state {
                SessionState::AwaitingUsername => {
                    self.username = trim_line(line.as_str());
                    self.state = SessionState::AwaitingRoomName;
                    Directive::Idle
                },
                SessionState::AwaitingRoomName => {
                    let trimmed = trim_line(line.as_str());
                    let announcement = self.username.clone().concat(" has joined the room");
                    self.room_name = trimmed.clone();
                    self.state = SessionState::Active;
                    Directive::JoinRoom { room_name: trimmed, announcement }
                },
                SessionState::Active => {
                    let trimmed = trim_line(line.as_str());
                    if trimmed.as_str().unicode_len() == 0 {
                        Directive::Idle
                    } else {
                        let lowered = lowercase(trimmed.as_str());
                        let exit_word: String = String::from_str("exit");
                        if lowered.eq(&exit_word) {
                            self.state = SessionState::Terminated;
                            let message = self.username.clone().concat(" has left the room.");
                            proof {
                                assert(self@ =~~= (SessionModel {
                                    state: SessionState::Terminated,
                                    ..old(self)@
                                }));
                            }
                            Directive::AnnounceDeparture { message }
                        } else {
                            let message = self.username.clone().concat(": ").concat(
                                trimmed.as_str(),
                            );
                            Directive::Deliver { message }
                        }
                    }
                },
                SessionState::Terminated => {
                    proof {
                        assert(false);
                    }
                    Directive::Teardown
                },
            },
        }
    }
}

} // verus!
