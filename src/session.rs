//! The decisions of WebSocket and RSocket exchanges: when to read or probe,
//! when to send the next message, and when to stop. The caller performs each
//! action and reports what happened.

use vstd::prelude::*;

verus! {

/// What a read from the peer gave.
#[derive(Debug, Clone, Copy, PartialEq, Eq)]
pub enum Frame {
    /// A text, binary or control frame other than a close.
    Message,
    /// A close frame.
    Close,
    /// A read error.
    Failed,
    /// The end of the stream.
    Ended,
}

/// What the caller does next.
#[derive(Debug, Clone, Copy, PartialEq, Eq)]
pub enum Action {
    /// Read one frame and report it.
    Receive,
    /// Send message `i` of the script and report that it was sent.
    Send(usize),
    /// Every message was sent: read frames until the exchange ends, reporting each.
    Listen,
    /// Stop; `true` where the exchange ended well.
    Finish(bool),
}

/// Where the exchange is.
#[derive(Debug, Clone, Copy, PartialEq, Eq)]
pub enum Phase {
    /// Reading `left` more frames before message `index` is sent.
    Waiting { index: usize, left: usize },
    /// Message `index` is to be sent.
    Sending { index: usize },
    /// Reading the reply to message `index`, which waits for nothing.
    Reply { index: usize },
    /// Reading frames after the last message.
    Listening,
    /// Stopped.
    Done { ok: bool },
}

/// Where the exchange goes to send message `i` of a script whose messages
/// wait for `waits` frames each.
pub open spec fn begin(waits: Seq<usize>, i: int) -> (Phase, Action) {
    if i >= waits.len() {
        (Phase::Listening, Action::Listen)
    } else if waits[i] > 0 {
        (Phase::Waiting { index: i as usize, left: waits[i] }, Action::Receive)
    } else {
        (Phase::Sending { index: i as usize }, Action::Send(i as usize))
    }
}

/// The next phase and action after a frame was read in `p`.
pub open spec fn after_frame(waits: Seq<usize>, p: Phase, f: Frame) -> (Phase, Action) {
    match p {
        Phase::Waiting { index, left } => match f {
            Frame::Close => (Phase::Done { ok: true }, Action::Finish(true)),
            Frame::Failed => (Phase::Done { ok: false }, Action::Finish(false)),
            _ => if left > 1 {
                (Phase::Waiting { index, left: (left - 1) as usize }, Action::Receive)
            } else {
                (Phase::Sending { index }, Action::Send(index))
            },
        },
        Phase::Reply { index } => match f {
            Frame::Close => (Phase::Done { ok: true }, Action::Finish(true)),
            Frame::Failed => (Phase::Done { ok: false }, Action::Finish(false)),
            _ => begin(waits, index + 1),
        },
        Phase::Listening => match f {
            Frame::Message => (Phase::Listening, Action::Receive),
            _ => (Phase::Done { ok: true }, Action::Finish(true)),
        },
        _ => (p, Action::Finish(false)),
    }
}

/// The next phase and action after message `index` was sent.
pub open spec fn after_send(waits: Seq<usize>, index: int) -> (Phase, Action) {
    if 0 <= index < waits.len() && waits[index] == 0 {
        (Phase::Reply { index: index as usize }, Action::Receive)
    } else {
        begin(waits, index + 1)
    }
}

/// A WebSocket exchange of a script of messages.
pub struct WsSession {
    waits: Vec<usize>,
    phase: Phase,
}

impl WsSession {
    /// How many frames each message waits for.
    pub closed spec fn waits(&self) -> Seq<usize> {
        self.waits@
    }

    /// Where the exchange is.
    pub closed spec fn phase(&self) -> Phase {
        self.phase
    }

    /// An exchange of messages that wait for `waits` frames each, and the
    /// first action.
    pub fn start(waits: Vec<usize>) -> (r: (WsSession, Action))
        ensures
            r.0.waits() == waits@,
            (r.0.phase(), r.1) == begin(waits@, 0),
    {
        let (phase, action) = Self::begin_at(&waits, 0);
        (WsSession { waits, phase }, action)
    }

    fn begin_at(waits: &Vec<usize>, i: usize) -> (r: (Phase, Action))
        ensures
            r == begin(waits@, i as int),
    {
        if i >= waits.len() {
            (Phase::Listening, Action::Listen)
        } else if waits[i] > 0 {
            (Phase::Waiting { index: i, left: waits[i] }, Action::Receive)
        } else {
            (Phase::Sending { index: i }, Action::Send(i))
        }
    }

    /// Reports the frame that a `Receive` or `Listen` action read.
    pub fn on_frame(&mut self, f: Frame) -> (r: Action)
        ensures
            final(self).waits() == old(self).waits(),
            (final(self).phase(), r) == after_frame(old(self).waits(), old(self).phase(), f),
    {
        let (phase, action) = match self.phase {
            Phase::Waiting { index, left } => match f {
                Frame::Close => (Phase::Done { ok: true }, Action::Finish(true)),
                Frame::Failed => (Phase::Done { ok: false }, Action::Finish(false)),
                _ => if left > 1 {
                    (Phase::Waiting { index, left: left - 1 }, Action::Receive)
                } else {
                    (Phase::Sending { index }, Action::Send(index))
                },
            },
            Phase::Reply { index } => match f {
                Frame::Close => (Phase::Done { ok: true }, Action::Finish(true)),
                Frame::Failed => (Phase::Done { ok: false }, Action::Finish(false)),
                _ => if index < self.waits.len() {
                    Self::begin_at(&self.waits, index + 1)
                } else {
                    (Phase::Listening, Action::Listen)
                },
            },
            Phase::Listening => match f {
                Frame::Message => (Phase::Listening, Action::Receive),
                _ => (Phase::Done { ok: true }, Action::Finish(true)),
            },
            p => (p, Action::Finish(false)),
        };
        self.phase = phase;
        action
    }

    /// Reports that message `index` of a `Send` action was sent.
    pub fn on_sent(&mut self, index: usize) -> (r: Action)
        ensures
            final(self).waits() == old(self).waits(),
            (final(self).phase(), r) == after_send(old(self).waits(), index as int),
    {
        let (phase, action) = if index < self.waits.len() && self.waits[index] == 0 {
            (Phase::Reply { index }, Action::Receive)
        } else if index < self.waits.len() {
            Self::begin_at(&self.waits, index + 1)
        } else {
            (Phase::Listening, Action::Listen)
        };
        self.phase = phase;
        action
    }
}

/// What the caller of an RSocket exchange does next.
#[derive(Debug, Clone, Copy, PartialEq, Eq)]
pub enum RsAction {
    /// Make one empty request-response, to consume a response of the server,
    /// and report whether it succeeded.
    Probe,
    /// Send message `i` of the script as a request-response and report
    /// whether it succeeded.
    Send(usize),
    /// Stop; `true` where every message was sent.
    Finish(bool),
}

/// Where an RSocket exchange is.
#[derive(Debug, Clone, Copy, PartialEq, Eq)]
pub enum RsState {
    /// `left` more probes are due before message `index` is sent.
    Probing { index: usize, left: usize },
    /// Message `index` is being sent.
    Sending { index: usize },
    /// Stopped.
    Done { ok: bool },
}

/// Where an RSocket exchange goes to send message `i` of a script whose
/// messages wait for `w` responses each.
pub open spec fn rs_begin(w: Seq<usize>, i: int) -> (RsState, RsAction) {
    if i >= w.len() {
        (RsState::Done { ok: true }, RsAction::Finish(true))
    } else if w[i] > 0 {
        (RsState::Probing { index: i as usize, left: w[i] }, RsAction::Probe)
    } else {
        (RsState::Sending { index: i as usize }, RsAction::Send(i as usize))
    }
}

/// The next state and action once the action of `st` has given `ok`: the
/// result of a probe is not looked at; a message that failed ends the
/// exchange.
pub open spec fn rs_after(w: Seq<usize>, st: RsState, ok: bool) -> (RsState, RsAction) {
    match st {
        RsState::Probing { index, left } => if left > 1 {
            (RsState::Probing { index, left: (left - 1) as usize }, RsAction::Probe)
        } else {
            (RsState::Sending { index }, RsAction::Send(index))
        },
        RsState::Sending { index } => if ok {
            rs_begin(w, index + 1)
        } else {
            (RsState::Done { ok: false }, RsAction::Finish(false))
        },
        RsState::Done { ok: done } => (st, RsAction::Finish(done)),
    }
}

/// An RSocket exchange of a script of messages.
pub struct RsSession {
    waits: Vec<usize>,
    state: RsState,
}

impl RsSession {
    /// How many responses each message waits for.
    pub closed spec fn waits(&self) -> Seq<usize> {
        self.waits@
    }

    /// Where the exchange is.
    pub closed spec fn state(&self) -> RsState {
        self.state
    }

    fn begin_at(waits: &Vec<usize>, i: usize) -> (r: (RsState, RsAction))
        ensures
            r == rs_begin(waits@, i as int),
    {
        if i >= waits.len() {
            (RsState::Done { ok: true }, RsAction::Finish(true))
        } else if waits[i] > 0 {
            (RsState::Probing { index: i, left: waits[i] }, RsAction::Probe)
        } else {
            (RsState::Sending { index: i }, RsAction::Send(i))
        }
    }

    /// An exchange of messages that wait for `waits` responses each, and the
    /// first action.
    pub fn start(waits: Vec<usize>) -> (r: (RsSession, RsAction))
        ensures
            r.0.waits() == waits@,
            (r.0.state(), r.1) == rs_begin(waits@, 0),
    {
        let (state, action) = Self::begin_at(&waits, 0);
        (RsSession { waits, state }, action)
    }

    /// Reports whether the last `Probe` or `Send` succeeded.
    pub fn on_result(&mut self, ok: bool) -> (r: RsAction)
        ensures
            final(self).waits() == old(self).waits(),
            (final(self).state(), r) == rs_after(old(self).waits(), old(self).state(), ok),
    {
        let (state, action) = match self.state {
            RsState::Probing { index, left } => if left > 1 {
                (RsState::Probing { index, left: left - 1 }, RsAction::Probe)
            } else {
                (RsState::Sending { index }, RsAction::Send(index))
            },
            RsState::Sending { index } => if !ok {
                (RsState::Done { ok: false }, RsAction::Finish(false))
            } else if index < self.waits.len() {
                Self::begin_at(&self.waits, index + 1)
            } else {
                (RsState::Done { ok: true }, RsAction::Finish(true))
            },
            RsState::Done { ok: done } => (self.state, RsAction::Finish(done)),
        };
        self.state = state;
        action
    }
}

} // verus!
