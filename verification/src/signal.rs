//! The byte protocol of the signal self-pipe.
//!
//! A signal handler writes one byte per delivered signal; each byte carries
//! exactly one bit. A read of the pipe folds all pending bytes into one
//! [`SignalFlags`] value.

use vstd::prelude::*;

verus! {

/// Bit written for `SIGTERM`.
pub const TERM: u8 = 1;

/// Bit written for `SIGINT`.
pub const INT: u8 = 2;

/// Bit written for `SIGHUP`.
pub const HUP: u8 = 4;

/// Bit written for `SIGUSR1`.
pub const USR1: u8 = 8;

/// Bit written for `SIGUSR2`.
pub const USR2: u8 = 16;

/// The signals the daemon installs handlers for.
#[derive(Clone, Copy, Debug, PartialEq, Eq, Structural)]
pub enum Signal {
    Term,
    Int,
    Hup,
    Usr1,
    Usr2,
}

/// The set of signals seen in one read of the self-pipe.
#[derive(Clone, Copy, Debug)]
pub struct SignalFlags(u8);

/// What the main loop does about the signals it has seen.
#[derive(Clone, Copy, Debug, PartialEq, Eq, Structural)]
pub enum SignalAction {
    /// A termination or hangup signal was seen: the loop ends.
    Exit,
    /// Only reserved signals were seen: they are reported, nothing more.
    ReportReserved,
    /// Nothing is to be done.
    Ignore,
}

/// All `bytes` joined by bitwise or.
pub open spec fn or_all(bytes: Seq<u8>) -> u8
    decreases bytes.len(),
{
    if bytes.len() == 0 {
        0
    } else {
        or_all(bytes.drop_last()) | bytes.last()
    }
}

/// The bit that stands for `signal` on the pipe.
pub open spec fn signal_bit(signal: Signal) -> u8 {
    match signal {
        Signal::Term => TERM,
        Signal::Int => INT,
        Signal::Hup => HUP,
        Signal::Usr1 => USR1,
        Signal::Usr2 => USR2,
    }
}

impl Signal {
    /// The byte a handler writes to the pipe for this signal.
    pub fn flag_byte(self) -> (byte: u8)
        ensures
            byte == signal_bit(self),
            byte != 0,
    {
        match self {
            Signal::Term => TERM,
            Signal::Int => INT,
            Signal::Hup => HUP,
            Signal::Usr1 => USR1,
            Signal::Usr2 => USR2,
        }
    }
}

impl SignalFlags {
    /// The bits of the signals seen.
    pub closed spec fn bits(self) -> u8 {
        self.0
    }

    /// Whether the bit of `signal` is set.
    pub open spec fn has(self, signal: Signal) -> bool {
        self.bits() & signal_bit(signal) != 0
    }

    /// Whether a termination or hangup signal was seen.
    pub open spec fn terminates(self) -> bool {
        self.has(Signal::Term) || self.has(Signal::Int) || self.has(Signal::Hup)
    }

    /// The flags of the bytes read from the pipe in one go. A zero byte is
    /// none that a handler writes: with one among them there are no flags.
    pub fn from_bytes(bytes: &[u8]) -> (flags: Option<SignalFlags>)
        ensures
            flags is None <==> exists|i: int| 0 <= i < bytes@.len() && bytes@[i] == 0,
            flags matches Some(seen) ==> seen.bits() == or_all(bytes@),
    {
        let mut seen: u8 = 0;
        let mut index: usize = 0;
        proof {
            assert(bytes@.take(0) =~= Seq::empty());
        }
        while index < bytes.len()
            invariant
                index <= bytes@.len(),
                seen == or_all(bytes@.take(index as int)),
                forall|i: int| 0 <= i < index ==> bytes@[i] != 0,
            decreases bytes@.len() - index,
        {
            if bytes[index] == 0 {
                return None;
            }
            proof {
                assert(bytes@.take(index + 1).drop_last() =~= bytes@.take(index as int));
            }
            seen = seen | bytes[index];
            index += 1;
        }
        proof {
            assert(bytes@.take(index as int) =~= bytes@);
        }
        Some(SignalFlags(seen))
    }

    /// What the main loop does about these signals: it ends on the first
    /// termination or hangup signal, and only reports the reserved ones.
    pub fn action(self) -> (action: SignalAction)
        ensures
            action == if self.terminates() {
                SignalAction::Exit
            } else if self.has(Signal::Usr1) || self.has(Signal::Usr2) {
                SignalAction::ReportReserved
            } else {
                SignalAction::Ignore
            },
    {
        if self.any_termination().is_some() {
            SignalAction::Exit
        } else if self.has_usr1() || self.has_usr2() {
            SignalAction::ReportReserved
        } else {
            SignalAction::Ignore
        }
    }

    /// The name of the termination-class signal that was seen, if any:
    /// `TERM` before `INT` before `HUP`.
    pub fn any_termination(self) -> (name: Option<&'static str>)
        ensures
            self.has(Signal::Term) ==> name == Some("TERM"),
            !self.has(Signal::Term) && self.has(Signal::Int) ==> name == Some("INT"),
            !self.has(Signal::Term) && !self.has(Signal::Int) && self.has(Signal::Hup) ==> name
                == Some("HUP"),
            !self.has(Signal::Term) && !self.has(Signal::Int) && !self.has(Signal::Hup) ==> name
                is None,
    {
        if self.0 & TERM != 0 {
            Some("TERM")
        } else if self.0 & INT != 0 {
            Some("INT")
        } else if self.0 & HUP != 0 {
            Some("HUP")
        } else {
            None
        }
    }

    /// Whether `SIGUSR1` was seen.
    pub fn has_usr1(self) -> (seen: bool)
        ensures
            seen == self.has(Signal::Usr1),
    {
        self.0 & USR1 != 0
    }

    /// Whether `SIGUSR2` was seen.
    pub fn has_usr2(self) -> (seen: bool)
        ensures
            seen == self.has(Signal::Usr2),
    {
        self.0 & USR2 != 0
    }
}

} // verus!
