//! Plans: what an operation asks of the collaborators, and what becomes of the
//! engine once they have answered.

use crate::pallet::{Pallet, State};
use crate::types::{Command, Error, Event, Reply};
use vstd::prelude::*;

verus! {

/// What an operation leaves behind where it goes through.
#[derive(Debug)]
pub struct Committed {
    /// The engine after the operation.
    pub state: Pallet,
    /// What the operation did, in order.
    pub events: Vec<Event>,
}

/// An operation worked out but not yet carried out.
///
/// The commands are handed to the collaborators in order, and `settle` is told
/// how each ended. The verdict is what the engine itself found; a fault of a
/// collaborator comes before it.
#[derive(Debug)]
pub struct Plan {
    /// What the collaborators are asked to do, in order.
    pub commands: Vec<Command>,
    /// What the operation comes to where every command is carried out.
    pub verdict: Result<Committed, Error>,
}

/// A plan as a value of mathematics.
pub struct Outline {
    pub commands: Seq<Command>,
    pub verdict: Result<(State, Seq<Event>), Error>,
}

impl View for Committed {
    type V = (State, Seq<Event>);

    open spec fn view(&self) -> (State, Seq<Event>) {
        (self.state@, self.events@)
    }
}

impl View for Plan {
    type V = Outline;

    open spec fn view(&self) -> Outline {
        Outline {
            commands: self.commands@,
            verdict: match self.verdict {
                Ok(done) => Ok(done@),
                Err(e) => Err(e),
            },
        }
    }
}

/// The error that a reply to a command amounts to, if any.
///
/// A refusal by the transport is a failed remote execution; a refusal by the
/// ledger is passed on with its code. An escrow that gave less than was asked
/// of it did not cover its request.
pub open spec fn fault(command: Command, reply: Reply) -> Option<Error> {
    match reply {
        Reply::Failed(code) => match command {
            Command::CrossChainTransfer { .. } => Some(Error::RemoteExecutionFailed),
            _ => Some(Error::Ledger(code)),
        },
        Reply::Completed(unsatisfied) => match command {
            Command::RepatriateReserved { .. } => if unsatisfied != 0 {
                Some(Error::InsufficientReservedBalances)
            } else {
                None
            },
            _ => None,
        },
    }
}

/// The first error among the replies to a run of commands, a command without
/// a reply counting as unanswered.
pub open spec fn first_fault(commands: Seq<Command>, replies: Seq<Reply>) -> Option<Error>
    decreases commands.len(),
{
    if commands.len() == 0 {
        None
    } else if replies.len() == 0 {
        Some(Error::Unanswered)
    } else {
        match fault(commands.first(), replies.first()) {
            Some(e) => Some(e),
            None => first_fault(commands.drop_first(), replies.drop_first()),
        }
    }
}

/// The error that `reply` to `command` amounts to, if any.
pub fn reply_fault(command: &Command, reply: &Reply) -> (r: Option<Error>)
    ensures
        r == fault(*command, *reply),
{
    match reply {
        Reply::Failed(code) => match command {
            Command::CrossChainTransfer { .. } => Some(Error::RemoteExecutionFailed),
            _ => Some(Error::Ledger(*code)),
        },
        Reply::Completed(unsatisfied) => match command {
            Command::RepatriateReserved { .. } => if *unsatisfied != 0 {
                Some(Error::InsufficientReservedBalances)
            } else {
                None
            },
            _ => None,
        },
    }
}

impl Plan {
    /// What the operation came to, given how the collaborators answered its
    /// commands, the reply at each place answering the command at that place.
    ///
    /// The first fault among the replies rejects the operation. Where there is
    /// none, the engine's own verdict stands: the new state and the events, or
    /// the engine's error. A rejected operation leaves no new state.
    pub fn settle(self, replies: &Vec<Reply>) -> (r: Result<Committed, Error>)
        ensures
            r == match first_fault(self.commands@, replies@) {
                Some(e) => Err::<Committed, Error>(e),
                None => self.verdict,
            },
    {
        let n = self.commands.len();
        let mut i: usize = 0;
        proof {
            assert(self.commands@.skip(0) =~= self.commands@);
            assert(replies@.skip(0) =~= replies@);
        }
        while i < n
            invariant
                n == self.commands@.len(),
                i <= n,
                i <= replies@.len(),
                first_fault(self.commands@, replies@) == first_fault(
                    self.commands@.skip(i as int),
                    replies@.skip(i as int),
                ),
            decreases n - i,
        {
            if i >= replies.len() {
                return Err(Error::Unanswered);
            }
            proof {
                let cs = self.commands@.skip(i as int);
                let rs = replies@.skip(i as int);
                assert(cs.drop_first() =~= self.commands@.skip(i + 1));
                assert(rs.drop_first() =~= replies@.skip(i + 1));
            }
            match reply_fault(&self.commands[i], &replies[i]) {
                Some(e) => {
                    return Err(e);
                },
                None => {},
            }
            i = i + 1;
        }
        self.verdict
    }
}

} // verus!
