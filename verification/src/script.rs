//! What the tasks of a benchmark do, step by step. A script names the next action of its
//! task and takes note of how the action ended; whoever runs the task performs the action
//! on a channel, and waits where the channel makes it wait.

use vstd::prelude::*;

verus! {

/// What a task does next.
#[derive(Clone, Copy, Debug, PartialEq, Eq, Structural)]
pub enum Action {
    /// Send this message.
    Send(u64),
    /// Receive a message.
    Recv,
    /// Nothing more: the task ends and lets go of its handles.
    Done,
}

/// The part of a task that decides.
pub trait Script: Sized {
    /// The script's own invariant.
    spec fn wf(&self) -> bool;

    /// The action that comes next.
    spec fn next(&self) -> Action;

    /// Computes `next`.
    fn action(&self) -> (action: Action)
        requires
            self.wf(),
        ensures
            action == self.next(),
    ;

    /// The message of the send that was due has been accepted. Where no send was due,
    /// nothing changes.
    fn sent(&mut self)
        requires
            old(self).wf(),
        ensures
            final(self).wf(),
            !(old(self).next() is Send) ==> *final(self) == *old(self),
    ;

    /// The receive that was due has ended: with a message, or with none because the
    /// channel is closed. Where no receive was due, nothing changes.
    fn received(&mut self, message: Option<u64>)
        requires
            old(self).wf(),
        ensures
            final(self).wf(),
            !(old(self).next() is Recv) ==> *final(self) == *old(self),
    ;
}

/// Sends a quota of messages, numbered from zero, and ends.
#[derive(Clone, Copy, Debug, PartialEq, Eq)]
pub struct Producer {
    quota: u64,
    sent: u64,
}

impl Producer {
    /// How many messages the producer sends in all.
    pub closed spec fn quota(&self) -> nat {
        self.quota as nat
    }

    /// How many of them were accepted so far.
    pub closed spec fn sent_so_far(&self) -> nat {
        self.sent as nat
    }

    /// A producer that has sent nothing yet.
    pub fn new(quota: u64) -> (producer: Producer)
        ensures
            producer.wf(),
            producer.quota() == quota,
            producer.sent_so_far() == 0,
    {
        Producer { quota, sent: 0 }
    }
}

impl Script for Producer {
    open spec fn wf(&self) -> bool {
        self.sent_so_far() <= self.quota() <= u64::MAX
    }

    open spec fn next(&self) -> Action {
        if self.sent_so_far() < self.quota() {
            Action::Send(self.sent_so_far() as u64)
        } else {
            Action::Done
        }
    }

    fn action(&self) -> (action: Action) {
        if self.sent < self.quota {
            Action::Send(self.sent)
        } else {
            Action::Done
        }
    }

    fn sent(&mut self)
        ensures
            final(self).quota() == old(self).quota(),
            old(self).next() is Send ==> final(self).sent_so_far() == old(self).sent_so_far() + 1,
    {
        if self.sent < self.quota {
            self.sent = self.sent + 1;
        }
    }

    fn received(&mut self, message: Option<u64>)
        ensures
            *final(self) == *old(self),
    {
    }
}

/// Receives until the channel is closed, and ends.
#[derive(Clone, Copy, Debug, PartialEq, Eq)]
pub struct Consumer {
    open: bool,
}

impl Consumer {
    /// Whether the end of the stream has not been seen yet.
    pub closed spec fn is_open(&self) -> bool {
        self.open
    }

    /// A consumer that has seen nothing yet.
    pub fn new() -> (consumer: Consumer)
        ensures
            consumer.wf(),
            consumer.is_open(),
    {
        Consumer { open: true }
    }
}

impl Script for Consumer {
    open spec fn wf(&self) -> bool {
        true
    }

    open spec fn next(&self) -> Action {
        if self.is_open() {
            Action::Recv
        } else {
            Action::Done
        }
    }

    fn action(&self) -> (action: Action) {
        if self.open {
            Action::Recv
        } else {
            Action::Done
        }
    }

    fn sent(&mut self)
        ensures
            *final(self) == *old(self),
    {
    }

    fn received(&mut self, message: Option<u64>)
        ensures
            final(self).is_open() == (old(self).is_open() && message.is_some()),
    {
        if self.open {
            self.open = message.is_some();
        }
    }
}

/// Plays a number of rounds: in each it sends a ball and waits for it to come back. It
/// ends after the last round, or when the partner is gone.
#[derive(Clone, Copy, Debug, PartialEq, Eq)]
pub struct Striker {
    rounds: u64,
    played: u64,
    waiting: bool,
}

impl Striker {
    /// How many rounds are played in all.
    pub closed spec fn rounds(&self) -> nat {
        self.rounds as nat
    }

    /// How many rounds are over.
    pub closed spec fn played(&self) -> nat {
        self.played as nat
    }

    /// Whether a ball is out and has not come back.
    pub closed spec fn is_waiting(&self) -> bool {
        self.waiting
    }

    /// A striker before its first round.
    pub fn new(rounds: u64) -> (striker: Striker)
        ensures
            striker.wf(),
            striker.rounds() == rounds,
            striker.played() == 0,
            !striker.is_waiting(),
    {
        Striker { rounds, played: 0, waiting: false }
    }
}

impl Script for Striker {
    open spec fn wf(&self) -> bool {
        &&& self.played() <= self.rounds() <= u64::MAX
        &&& self.is_waiting() ==> self.played() < self.rounds()
    }

    open spec fn next(&self) -> Action {
        if self.is_waiting() {
            Action::Recv
        } else if self.played() < self.rounds() {
            Action::Send(self.played() as u64)
        } else {
            Action::Done
        }
    }

    fn action(&self) -> (action: Action) {
        if self.waiting {
            Action::Recv
        } else if self.played < self.rounds {
            Action::Send(self.played)
        } else {
            Action::Done
        }
    }

    fn sent(&mut self)
        ensures
            final(self).rounds() == old(self).rounds(),
            final(self).played() == old(self).played(),
            old(self).next() is Send ==> final(self).is_waiting(),
    {
        if !self.waiting && self.played < self.rounds {
            self.waiting = true;
        }
    }

    fn received(&mut self, message: Option<u64>)
        ensures
            final(self).rounds() == old(self).rounds(),
            old(self).next() is Recv ==> !final(self).is_waiting() && final(self).played() == if message.is_some() {
                old(self).played() + 1
            } else {
                old(self).rounds()
            },
    {
        if self.waiting {
            self.waiting = false;
            if message.is_some() {
                self.played = self.played + 1;
            } else {
                self.played = self.rounds;
            }
        }
    }
}

/// Sends every ball that it receives back, and ends when the channel is closed.
#[derive(Clone, Copy, Debug, PartialEq, Eq)]
pub struct Bumper {
    holding: Option<u64>,
    open: bool,
}

impl Bumper {
    /// The ball that was received and has not been sent back yet.
    pub closed spec fn holding(&self) -> Option<u64> {
        self.holding
    }

    /// Whether the end of the stream has not been seen yet.
    pub closed spec fn is_open(&self) -> bool {
        self.open
    }

    /// A bumper that has seen nothing yet.
    pub fn new() -> (bumper: Bumper)
        ensures
            bumper.wf(),
            bumper.holding() is None,
            bumper.is_open(),
    {
        Bumper { holding: None, open: true }
    }
}

impl Script for Bumper {
    open spec fn wf(&self) -> bool {
        true
    }

    open spec fn next(&self) -> Action {
        match self.holding() {
            Some(ball) => Action::Send(ball),
            None => if self.is_open() {
                Action::Recv
            } else {
                Action::Done
            },
        }
    }

    fn action(&self) -> (action: Action) {
        match self.holding {
            Some(ball) => Action::Send(ball),
            None => if self.open {
                Action::Recv
            } else {
                Action::Done
            },
        }
    }

    fn sent(&mut self)
        ensures
            final(self).holding() is None,
            final(self).is_open() == old(self).is_open(),
    {
        self.holding = None;
    }

    fn received(&mut self, message: Option<u64>)
        ensures
            old(self).next() is Recv ==> final(self).holding() == message && final(self).is_open()
                == message.is_some(),
    {
        if self.holding.is_none() && self.open {
            self.holding = message;
            self.open = message.is_some();
        }
    }
}

} // verus!
