//! Operations that take several changes to the store: which change comes next, and what the
//! operation comes to.

use crate::actions::Action;
use crate::cipher::Cipher;
use crate::error::{Detail, Error};
use vstd::prelude::*;

verus! {

/// What an operation says when it fails.
#[derive(Clone, Copy, Debug, PartialEq, Eq, Structural)]
pub enum Complaint {
    /// A cipher could not be saved.
    Saving,
    /// A cipher could not be deleted.
    Deleting,
    /// A cipher is not in the folder that it should be moved from.
    LostFolder,
}

impl Complaint {
    /// The words of the complaint.
    pub open spec fn spec_message(self) -> Seq<char> {
        match self {
            Complaint::Saving => "Error saving cipher"@,
            Complaint::Deleting => "Error deleting cipher"@,
            Complaint::LostFolder => "Couldn't move from previous folder"@,
        }
    }

    /// The words of the complaint.
    pub fn message(self) -> (message: String)
        ensures
            message@ == self.spec_message(),
    {
        match self {
            Complaint::Saving => "Error saving cipher".to_owned(),
            Complaint::Deleting => "Error deleting cipher".to_owned(),
            Complaint::LostFolder => "Couldn't move from previous folder".to_owned(),
        }
    }
}

/// Why the store did not make a change.
#[derive(Debug)]
pub enum Failure {
    /// The change would have left a reference to a deleted row.
    ForeignKeyViolation(Error),
    /// Anything else.
    Other(Error),
}

impl Failure {
    /// The error behind the failure.
    pub open spec fn error(self) -> Error {
        match self {
            Failure::ForeignKeyViolation(error) => error,
            Failure::Other(error) => error,
        }
    }
}

/// What a failed change means for the operation.
#[derive(Clone, Copy, Debug, PartialEq, Eq, Structural)]
pub enum OnFailure {
    /// Nothing: the operation goes on.
    Ignore,
    /// The operation fails with the change's error.
    Pass,
    /// The operation fails with the change's error under a message of its own.
    Say(Complaint),
}

/// One change within an operation.
#[derive(Debug)]
pub struct Step {
    /// The change.
    pub action: Action,
    /// The change to make in its place where it violates a foreign key.
    pub fallback: Option<Action>,
    /// What a failure means.
    pub on_failure: OnFailure,
}

/// An operation that is being carried out.
#[derive(Debug)]
pub struct Run {
    /// The changes, in their order.
    pub steps: Vec<Step>,
    /// How many of them are behind.
    pub done: usize,
    /// Whether the next change is the fallback.
    pub falling_back: bool,
    /// What the operation comes to where no change fails.
    pub verdict: Option<Complaint>,
    /// The error that has ended the operation.
    pub error: Option<Error>,
}

/// The change's error under a message of the operation's own.
pub open spec fn is_renamed(renamed: Error, error: Error, complaint: Complaint) -> bool {
    renamed.message@ == complaint.spec_message() && renamed.detail == error.detail
}

impl Run {
    /// Whether this is an operation of the given changes that has not begun.
    pub open spec fn is_fresh(&self, steps: Seq<Step>, verdict: Option<Complaint>) -> bool {
        &&& self.steps@ == steps
        &&& self.done == 0
        &&& !self.falling_back
        &&& self.verdict == verdict
        &&& self.error is None
    }

    /// Whether the operation is in a state that it can get into: the fallback is next only
    /// where there is one.
    pub open spec fn valid(&self) -> bool {
        &&& self.done <= self.steps@.len()
        &&& self.falling_back ==> self.done < self.steps@.len()
            && self.steps@[self.done as int].fallback is Some
    }

    /// The change to make next; none where the operation is over.
    pub open spec fn upcoming(&self) -> Option<Action> {
        if self.error is Some || self.done >= self.steps@.len() {
            None
        } else if self.falling_back {
            self.steps@[self.done as int].fallback
        } else {
            Some(self.steps@[self.done as int].action)
        }
    }

    /// Whether `next` is the same operation with one more change behind it.
    pub open spec fn advances_to(&self, next: &Run) -> bool {
        &&& next.steps@ == self.steps@
        &&& next.verdict == self.verdict
        &&& next.done == self.done + 1
        &&& !next.falling_back
        &&& next.error is None
    }

    /// Whether `next` is the same operation, ended by an error.
    pub open spec fn ends_in(&self, next: &Run) -> bool {
        &&& next.steps@ == self.steps@
        &&& next.verdict == self.verdict
        &&& next.done == self.done
        &&& next.falling_back == self.falling_back
        &&& next.error is Some
    }

    /// Whether `next` is the same operation, with the fallback next.
    pub open spec fn falls_back_to(&self, next: &Run) -> bool {
        &&& next.steps@ == self.steps@
        &&& next.verdict == self.verdict
        &&& next.done == self.done
        &&& next.falling_back
        &&& next.error is None
    }

    /// Whether the outcome of the upcoming change turns the operation into `next`.
    pub open spec fn reacts(&self, outcome: Result<(), Failure>, next: &Run) -> bool {
        let step = self.steps@[self.done as int];
        match outcome {
            Ok(_) => self.advances_to(next),
            Err(failure) => if failure is ForeignKeyViolation && step.fallback is Some
                && !self.falling_back {
                self.falls_back_to(next)
            } else {
                match step.on_failure {
                    OnFailure::Ignore => self.advances_to(next),
                    OnFailure::Pass => self.ends_in(next) && next.error == Some(failure.error()),
                    OnFailure::Say(complaint) => self.ends_in(next) && is_renamed(
                        next.error->0,
                        failure.error(),
                        complaint,
                    ),
                }
            },
        }
    }

    /// Begins an operation.
    pub fn new(steps: Vec<Step>, verdict: Option<Complaint>) -> (run: Run)
        ensures
            run.is_fresh(steps@, verdict),
            run.valid(),
    {
        Run { steps, done: 0, falling_back: false, verdict, error: None }
    }

    /// The change to make next; none where the operation is over.
    pub fn next(&self) -> (action: Option<&Action>)
        requires
            self.valid(),
        ensures
            match action {
                Some(action) => self.upcoming() == Some(*action),
                None => self.upcoming() is None,
            },
    {
        if self.error.is_some() || self.done >= self.steps.len() {
            None
        } else if self.falling_back {
            self.steps[self.done].fallback.as_ref()
        } else {
            Some(&self.steps[self.done].action)
        }
    }

    /// Takes note of what came of the upcoming change.
    pub fn report(&mut self, outcome: Result<(), Failure>)
        requires
            old(self).valid(),
            old(self).upcoming() is Some,
        ensures
            final(self).valid(),
            old(self).reacts(outcome, &*final(self)),
    {
        assert(self.steps.len() == self.steps@.len());
        match outcome {
            Ok(_) => {
                self.done = self.done + 1;
                self.falling_back = false;
            },
            Err(failure) => {
                let violation = match &failure {
                    Failure::ForeignKeyViolation(_) => true,
                    Failure::Other(_) => false,
                };
                if violation && self.steps[self.done].fallback.is_some() && !self.falling_back {
                    self.falling_back = true;
                    return;
                }
                let error = match failure {
                    Failure::ForeignKeyViolation(error) => error,
                    Failure::Other(error) => error,
                };
                match self.steps[self.done].on_failure {
                    OnFailure::Ignore => {
                        self.done = self.done + 1;
                        self.falling_back = false;
                    },
                    OnFailure::Pass => {
                        self.error = Some(error);
                    },
                    OnFailure::Say(complaint) => {
                        self.error = Some(
                            Error { message: complaint.message(), detail: error.detail },
                        );
                    },
                }
            },
        }
    }

    /// What the operation, which is over, has come to.
    pub fn finish(self) -> (result: Result<(), Error>)
        requires
            self.valid(),
            self.upcoming() is None,
        ensures
            match (self.error, self.verdict) {
                (Some(error), _) => result == Err::<(), Error>(error),
                (None, Some(complaint)) => result matches Err(error) && error.message@
                    == complaint.spec_message() && error.detail is Plain,
                (None, None) => result is Ok,
            },
    {
        match self.error {
            Some(error) => Err(error),
            None => match self.verdict {
                Some(complaint) => Err(
                    Error { message: complaint.message(), detail: Detail::Plain },
                ),
                None => Ok(()),
            },
        }
    }
}

/// The deletion of several ciphers, one after the other.
#[derive(Debug)]
pub struct Sweep {
    /// The ciphers, in their order.
    pub ciphers: Vec<Cipher>,
    /// How many of them are behind.
    pub done: usize,
    /// Whether a cipher that cannot be deleted is passed over.
    pub tolerant: bool,
    /// The error that has ended the sweep.
    pub error: Option<Error>,
}

impl Sweep {
    /// Whether this is a sweep over the given ciphers that has not begun.
    pub open spec fn is_fresh(&self, ciphers: Seq<Cipher>, tolerant: bool) -> bool {
        &&& self.ciphers@ == ciphers
        &&& self.done == 0
        &&& self.tolerant == tolerant
        &&& self.error is None
    }

    /// Whether the sweep is in a state that it can get into.
    pub open spec fn valid(&self) -> bool {
        self.done <= self.ciphers@.len()
    }

    /// The cipher to delete next; none where the sweep is over.
    pub open spec fn upcoming(&self) -> Option<Cipher> {
        if self.error is Some || self.done >= self.ciphers@.len() {
            None
        } else {
            Some(self.ciphers@[self.done as int])
        }
    }

    /// Whether the outcome of the upcoming deletion turns the sweep into `next`.
    pub open spec fn reacts(&self, outcome: Result<(), Error>, next: &Sweep) -> bool {
        &&& next.ciphers@ == self.ciphers@
        &&& next.tolerant == self.tolerant
        &&& match outcome {
            Err(error) if !self.tolerant => next.done == self.done && next.error == Some(error),
            _ => next.done == self.done + 1 && next.error is None,
        }
    }

    /// Begins a sweep.
    pub fn new(ciphers: Vec<Cipher>, tolerant: bool) -> (sweep: Sweep)
        ensures
            sweep.is_fresh(ciphers@, tolerant),
            sweep.valid(),
    {
        Sweep { ciphers, done: 0, tolerant, error: None }
    }

    /// The cipher to delete next; none where the sweep is over.
    pub fn next(&self) -> (cipher: Option<&Cipher>)
        requires
            self.valid(),
        ensures
            match cipher {
                Some(cipher) => self.upcoming() == Some(*cipher),
                None => self.upcoming() is None,
            },
    {
        if self.error.is_some() || self.done >= self.ciphers.len() {
            None
        } else {
            Some(&self.ciphers[self.done])
        }
    }

    /// Takes note of what came of the upcoming deletion.
    pub fn report(&mut self, outcome: Result<(), Error>)
        requires
            old(self).valid(),
            old(self).upcoming() is Some,
        ensures
            final(self).valid(),
            old(self).reacts(outcome, &*final(self)),
    {
        assert(self.ciphers.len() == self.ciphers@.len());
        match outcome {
            Ok(_) => {
                self.done = self.done + 1;
            },
            Err(error) => if self.tolerant {
                self.done = self.done + 1;
            } else {
                self.error = Some(error);
            },
        }
    }

    /// What the sweep, which is over, has come to.
    pub fn finish(self) -> (result: Result<(), Error>)
        requires
            self.valid(),
            self.upcoming() is None,
        ensures
            match self.error {
                Some(error) => result == Err::<(), Error>(error),
                None => result is Ok,
            },
    {
        match self.error {
            Some(error) => Err(error),
            None => Ok(()),
        }
    }
}

} // verus!
