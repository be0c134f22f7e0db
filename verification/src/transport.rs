//! The byte stream to the broker: how sending and receiving go on after each attempt of a stream
//! that does not block.

use crate::mqtt::transport::TransportError;
use crate::text;
use vstd::prelude::*;

verus! {

/// What can go wrong with the stream.
#[derive(Debug)]
pub enum StdError {
    Io(String),
    NotConnected,
    ConnectionClosed,
    ConnectTimeout,
    InvalidAddr,
}

impl TransportError for StdError {

}

/// An error, with its text taken for what it says.
pub enum StdErrorView {
    Io(Seq<char>),
    NotConnected,
    ConnectionClosed,
    ConnectTimeout,
    InvalidAddr,
}

impl View for StdError {
    type V = StdErrorView;

    open spec fn view(&self) -> StdErrorView {
        match *self {
            StdError::Io(m) => StdErrorView::Io(m@),
            StdError::NotConnected => StdErrorView::NotConnected,
            StdError::ConnectionClosed => StdErrorView::ConnectionClosed,
            StdError::ConnectTimeout => StdErrorView::ConnectTimeout,
            StdError::InvalidAddr => StdErrorView::InvalidAddr,
        }
    }
}

impl StdError {
    /// The message to show.
    pub fn message(&self) -> (s: String)
        ensures
            s@ == match self@ {
                StdErrorView::Io(m) => "io: "@ + m,
                StdErrorView::NotConnected => "not connected"@,
                StdErrorView::ConnectionClosed => "connection closed"@,
                StdErrorView::ConnectTimeout => "connect timeout"@,
                StdErrorView::InvalidAddr => "invalid address"@,
            },
    {
        match self {
            StdError::Io(m) => text::join("io: ", m.as_str()),
            StdError::NotConnected => "not connected".to_owned(),
            StdError::ConnectionClosed => "connection closed".to_owned(),
            StdError::ConnectTimeout => "connect timeout".to_owned(),
            StdError::InvalidAddr => "invalid address".to_owned(),
        }
    }
}

/// How one attempt to read or to write ended.
#[derive(Debug)]
pub enum IoOutcome {
    /// So many bytes were moved.
    Moved(usize),
    /// The stream is not ready.
    WouldBlock,
    /// The attempt was cut short before it began.
    Interrupted,
    /// The stream is broken.
    Failed(String),
}

/// What comes after an attempt.
#[derive(Debug, Clone, Copy, PartialEq, Eq, Structural)]
pub enum IoStep {
    /// So many bytes were moved.
    Moved(usize),
    /// Others run before the next attempt.
    Yield,
    /// The next attempt follows at once.
    Again,
}

/// What comes after an attempt that ended so. An attempt that moves nothing shows that the other
/// side has closed the stream.
pub open spec fn stepped(o: IoOutcome) -> Result<IoStep, StdErrorView> {
    match o {
        IoOutcome::Moved(n) => if n == 0 {
            Err(StdErrorView::ConnectionClosed)
        } else {
            Ok(IoStep::Moved(n))
        },
        IoOutcome::WouldBlock => Ok(IoStep::Yield),
        IoOutcome::Interrupted => Ok(IoStep::Again),
        IoOutcome::Failed(m) => Err(StdErrorView::Io(m@)),
    }
}

/// A result, with its error taken for what it says.
pub open spec fn step_view<T>(r: Result<T, StdError>) -> Result<T, StdErrorView> {
    match r {
        Ok(s) => Ok(s),
        Err(e) => Err(e@),
    }
}

/// What comes after an attempt to receive.
pub fn recv(o: IoOutcome) -> (r: Result<IoStep, StdError>)
    ensures
        step_view(r) == stepped(o),
{
    match o {
        IoOutcome::Moved(n) => if n == 0 {
            Err(StdError::ConnectionClosed)
        } else {
            Ok(IoStep::Moved(n))
        },
        IoOutcome::WouldBlock => Ok(IoStep::Yield),
        IoOutcome::Interrupted => Ok(IoStep::Again),
        IoOutcome::Failed(m) => Err(StdError::Io(m)),
    }
}

/// A buffer on its way out: the bytes before `written` have been handed over.
#[derive(Debug)]
pub struct SendRun {
    written: usize,
    total: usize,
}

impl SendRun {
    /// How many bytes have been handed over.
    pub closed spec fn written(&self) -> int {
        self.written as int
    }

    /// How many bytes there are.
    pub closed spec fn total(&self) -> int {
        self.total as int
    }

    /// No more is handed over than there is.
    pub closed spec fn well_formed(&self) -> bool {
        self.written <= self.total
    }

    /// Begins to send so many bytes.
    pub fn new(total: usize) -> (r: Self)
        ensures
            r.well_formed(),
            r.written() == 0,
            r.total() == total,
    {
        SendRun { written: 0, total }
    }

    /// Where the next attempt begins, if anything is left.
    pub fn rest(&self) -> (r: Option<usize>)
        requires
            self.well_formed(),
        ensures
            r is None <==> self.written() == self.total(),
            r matches Some(from) ==> from == self.written() && from < self.total(),
    {
        if self.written < self.total {
            Some(self.written)
        } else {
            None
        }
    }

    /// What comes after an attempt to write what is left.
    pub fn send(&mut self, o: IoOutcome) -> (r: Result<IoStep, StdError>)
        requires
            old(self).well_formed(),
            o matches IoOutcome::Moved(n) ==> n <= old(self).total() - old(self).written(),
        ensures
            final(self).well_formed(),
            final(self).total() == old(self).total(),
            step_view(r) == stepped(o),
            final(self).written() == match stepped(o) {
                Ok(IoStep::Moved(n)) => old(self).written() + n,
                _ => old(self).written(),
            },
    {
        let r: Result<IoStep, StdError> = recv(o);
        if let Ok(IoStep::Moved(n)) = r {
            self.written = self.written + n;
        }
        r
    }
}

/// The bytes that a run of attempts hands over, one after another.
pub open spec fn handed_over(buf: Seq<u8>, from: int, moved: Seq<nat>) -> Seq<u8>
    decreases moved.len(),
{
    if moved.len() == 0 {
        Seq::empty()
    } else {
        buf.subrange(from, from + moved[0]) + handed_over(
            buf,
            from + moved[0],
            moved.subrange(1, moved.len() as int),
        )
    }
}

/// How many bytes a run of attempts moves.
pub open spec fn moved_total(moved: Seq<nat>) -> nat
    decreases moved.len(),
{
    if moved.len() == 0 {
        0
    } else {
        moved[0] + moved_total(moved.subrange(1, moved.len() as int))
    }
}

/// However the attempts cut a buffer up: once they have moved as much as was left of it, they have
/// handed over the rest of it, whole and in order.
pub proof fn law_sent_in_order(buf: Seq<u8>, from: int, moved: Seq<nat>)
    requires
        0 <= from,
        from + moved_total(moved) == buf.len(),
    ensures
        handed_over(buf, from, moved) == buf.subrange(from, buf.len() as int),
    decreases moved.len(),
{
    if moved.len() > 0 {
        let rest = moved.subrange(1, moved.len() as int);
        law_sent_in_order(buf, from + moved[0], rest);
        assert(buf.subrange(from, from + moved[0]) + buf.subrange(
            from + moved[0],
            buf.len() as int,
        ) =~= buf.subrange(from, buf.len() as int));
    } else {
        assert(buf.subrange(from, buf.len() as int) =~= Seq::<u8>::empty());
    }
}

} // verus!
