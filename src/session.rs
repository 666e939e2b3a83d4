//! The pool session and its supervisor, as one state machine: the caller
//! performs each action and reports what came of it as the next event.
use vstd::prelude::*;
use crate::json::json_parsed;
use crate::rpc::{announced_work, decode_line, is_frame, is_login_frame, login_frame, LineEvent};
use crate::work::EthGetWorkResponse;

verus! {

/// Seconds the supervisor waits after a session ends.
pub const RECONNECT_DELAY_SECS: u64 = 5;

/// Startup configuration, kept unchanged for the life of the process.
pub struct PoolConfig {
    /// `host:port` of the pool.
    pub upstream_url: String,
    /// The 20-byte wallet address that logs in.
    pub wallet_address: [u8; 20],
    pub worker_name: String,
    /// Websocket endpoint of the blockchain node.
    pub web3: String,
}

/// A value that only the library can make.
pub struct Reserved {
    unused: (),
}

/// A command for the session from the pool handle. No command is defined
/// yet: the one variant holds a `Reserved`, so no value of this type can be
/// made outside the library, and the session takes none into account.
pub enum PoolMessage {
    Reserved(Reserved),
}

pub enum Phase {
    /// Opening the pool socket and the node transport.
    Connecting,
    /// Writing the login call.
    LoggingIn,
    /// Serving pool lines and queued commands.
    Active,
    /// The session ended; waiting before the next attempt.
    Backoff,
}

/// What the caller reports back.
pub enum Event {
    /// Both transports are open.
    Connected,
    /// The login bytes are fully written.
    LoginSent,
    /// One line from the pool, without its line feed.
    Line(String),
    /// A command from the queue.
    Message(PoolMessage),
    /// A transport failed or the pool closed the stream.
    Failed,
    /// The backoff delay is over.
    Slept,
}

/// What the caller does next.
pub enum Action {
    /// Open the pool socket at `upstream` and the node transport at `node`.
    Connect { upstream: String, node: String },
    /// Write these bytes to the pool socket.
    Send(Vec<u8>),
    /// Wait for the next pool line or queued command, whichever comes first.
    Receive,
    /// Drop the session's transports and sleep this many seconds.
    Sleep(u64),
    /// The event did not apply to this phase; carry on as before.
    Nothing,
}

/// Supervisor and session state.
pub struct PoolInner {
    pub config: PoolConfig,
    pub phase: Phase,
    /// The newest work assignment of the current session.
    pub latest_work: Option<EthGetWorkResponse>,
    /// Sessions started so far.
    pub attempts: u64,
}

/// The new latest work after a line: a decoded assignment replaces it, any
/// other line leaves it.
pub open spec fn work_after(old: Option<EthGetWorkResponse>, line: Seq<char>, new: Option<EthGetWorkResponse>) -> bool {
    match json_parsed(line) {
        Some(v) => match announced_work(v) {
            Some(w) => new matches Some(x) && x@ == w,
            None => new == old,
        },
        None => new == old,
    }
}

/// The action that starts an attempt, carrying the configured endpoints.
pub open spec fn connects_to(a: Action, c: PoolConfig) -> bool {
    a matches Action::Connect { upstream, node } && upstream@ == c.upstream_url@ && node@ == c.web3@
}

impl PoolInner {
    /// A supervisor about to make its first attempt.
    pub fn new(config: PoolConfig) -> (r: (Self, Action))
        ensures
            r.0.config == config,
            r.0.phase is Connecting,
            r.0.latest_work is None,
            r.0.attempts == 1,
            connects_to(r.1, config),
    {
        let a = Action::Connect { upstream: config.upstream_url.clone(), node: config.web3.clone() };
        (PoolInner { config, phase: Phase::Connecting, latest_work: None, attempts: 1 }, a)
    }

    /// Takes one event and says what to do next.
    pub fn step(&mut self, event: Event) -> (a: Action)
        ensures
            final(self).config == old(self).config,
            match (old(self).phase, event) {
                (Phase::Connecting, Event::Connected) => final(self).latest_work
                    == old(self).latest_work && final(self).attempts == old(self).attempts && (
                a matches Action::Send(b) && final(self).phase is LoggingIn && is_frame(b@)
                    && is_login_frame(b@, old(self).config.wallet_address@, old(self).config.worker_name@)),
                (Phase::LoggingIn, Event::LoginSent) => final(self).phase is Active && a is Receive
                    && final(self).latest_work == old(self).latest_work && final(self).attempts
                    == old(self).attempts,
                (Phase::Active, Event::Line(l)) => final(self).phase is Active && a is Receive
                    && work_after(old(self).latest_work, l@, final(self).latest_work)
                    && final(self).attempts == old(self).attempts,
                (Phase::Active, Event::Message(_)) => final(self).phase is Active && a is Receive
                    && final(self).latest_work == old(self).latest_work && final(self).attempts
                    == old(self).attempts,
                (Phase::Backoff, Event::Slept) => final(self).phase is Connecting
                    && final(self).latest_work is None && final(self).attempts == (if old(self).attempts < u64::MAX {
                    old(self).attempts + 1
                } else {
                    old(self).attempts as int
                }) && connects_to(a, old(self).config),
                (Phase::Backoff, _) => final(self).phase is Backoff && a is Nothing
                    && final(self).latest_work == old(self).latest_work && final(self).attempts
                    == old(self).attempts,
                (_, Event::Failed) => final(self).phase is Backoff && a == Action::Sleep(
                    RECONNECT_DELAY_SECS,
                ) && final(self).latest_work == old(self).latest_work && final(self).attempts
                    == old(self).attempts,
                _ => final(self).phase == old(self).phase && a is Nothing && final(self).latest_work
                    == old(self).latest_work && final(self).attempts == old(self).attempts,
            },
    {
        match (&self.phase, event) {
            (Phase::Connecting, Event::Connected) => {
                let b = login_frame(&self.config.wallet_address, self.config.worker_name.clone());
                self.phase = Phase::LoggingIn;
                Action::Send(b)
            },
            (Phase::LoggingIn, Event::LoginSent) => {
                self.phase = Phase::Active;
                Action::Receive
            },
            (Phase::Active, Event::Line(l)) => {
                let e = decode_line(l.as_str());
                if let LineEvent::Work(w) = e {
                    self.latest_work = Some(w);
                }
                Action::Receive
            },
            (Phase::Active, Event::Message(_)) => Action::Receive,
            (Phase::Backoff, Event::Slept) => {
                self.phase = Phase::Connecting;
                self.latest_work = None;
                self.attempts = if self.attempts < u64::MAX { self.attempts + 1 } else { self.attempts };
                Action::Connect {
                    upstream: self.config.upstream_url.clone(),
                    node: self.config.web3.clone(),
                }
            },
            (Phase::Backoff, _) => Action::Nothing,
            (_, Event::Failed) => {
                self.phase = Phase::Backoff;
                Action::Sleep(RECONNECT_DELAY_SECS)
            },
            _ => Action::Nothing,
        }
    }
}


} // verus!
