//! The decisions of a chain of statements run in one transaction: which
//! step comes next, what a step's outcome leads to, and when the chain
//! commits or rolls back. The caller performs each action against the
//! driver and reports back what happened.
use vstd::prelude::*;

use crate::binder::{parse_sql, resolves_as, BoundQuery};
use crate::builder::opt_view;
use crate::error::SqlError;
use crate::params::{insert_pair, SqlSingleParameters};
use crate::value::SqlValue;

verus! {

/// What a step hands back: the statement text, the parameters to resolve
/// it against, and the name under which to publish the identity that the
/// statement returns.
pub type ChainReturn = Result<(String, Option<SqlSingleParameters>, Option<String>), SqlError>;

/// Where a chain stands.
#[derive(Clone, Copy, Debug, PartialEq, Eq, Structural)]
pub enum ChainPhase {
    /// Waiting for the outcome of the current step.
    Stepping,
    /// Waiting for the affected-row counts of the current statement.
    Executing,
    /// Waiting for the identity that the current statement returns.
    ReadingIdentity,
    /// Waiting for `COMMIT` to go through.
    Committing,
    /// Waiting for `ROLLBACK` to go through.
    RollingBack,
    /// Committed: over.
    Committed,
    /// Rolled back: over.
    RolledBack,
}

/// What the caller reports after performing an action.
#[derive(Debug)]
pub enum ChainEvent {
    /// The current step was invoked; its outcome.
    StepReturned(ChainReturn),
    /// The statement ran; the rows that it affected, per batch.
    RowsAffected(Vec<u64>),
    /// The statement ran; the first column of its first row, or nothing if
    /// it returned no row.
    IdentityReturned(Option<i32>),
    /// The driver failed; its message.
    DriverFailed(String),
    /// `COMMIT` or `ROLLBACK` went through.
    Finished,
}

/// What the caller is to do next.
#[derive(Debug)]
pub enum ChainAction {
    /// Invoke step `i` with its parameters and the current global map.
    InvokeStep(usize),
    /// Execute the statement for its affected-row counts.
    Execute(BoundQuery),
    /// Run the statement and read the identity in its first row and column.
    ReadIdentity(BoundQuery),
    /// Issue `COMMIT`.
    Commit,
    /// Issue `ROLLBACK`.
    Rollback,
    /// The chain is over, with this result.
    Finish(Result<Vec<u64>, SqlError>),
}

/// The state of one chain run: it is open until it commits or rolls back,
/// each at most once and never both.
pub struct ChainRun {
    phase: ChainPhase,
    steps: usize,
    current: usize,
    globals: SqlSingleParameters,
    affected: Vec<u64>,
    publish: Option<String>,
    failure: Option<SqlError>,
}

impl ChainEvent {
    /// The event answers an action of the phase.
    pub open spec fn fits(self, phase: ChainPhase) -> bool {
        match self {
            ChainEvent::StepReturned(_) => phase == ChainPhase::Stepping,
            ChainEvent::RowsAffected(_) => phase == ChainPhase::Executing,
            ChainEvent::IdentityReturned(_) => phase == ChainPhase::ReadingIdentity,
            ChainEvent::DriverFailed(_) => phase != ChainPhase::Committed && phase
                != ChainPhase::RolledBack,
            ChainEvent::Finished => phase == ChainPhase::Committing || phase
                == ChainPhase::RollingBack,
        }
    }
}

impl ChainRun {
    pub closed spec fn phase(&self) -> ChainPhase {
        self.phase
    }

    /// The number of steps.
    pub closed spec fn step_count(&self) -> nat {
        self.steps as nat
    }

    /// The index of the current step.
    pub closed spec fn current_step(&self) -> nat {
        self.current as nat
    }

    /// The global map that the steps read.
    pub closed spec fn globals_view(&self) -> Seq<(Seq<char>, SqlValue)> {
        self.globals@
    }

    /// The affected-row counts gathered so far.
    pub closed spec fn affected_view(&self) -> Seq<u64> {
        self.affected@
    }

    /// The name under which the pending identity is published.
    pub closed spec fn publish_name(&self) -> Option<Seq<char>> {
        match self.publish {
            Some(n) => Some(n@),
            None => None,
        }
    }

    /// The error that made the chain roll back.
    pub closed spec fn failure(&self) -> Option<SqlError> {
        self.failure
    }

    /// Open (not yet committed or rolled back).
    pub open spec fn is_open(&self) -> bool {
        self.phase() != ChainPhase::Committed && self.phase() != ChainPhase::RolledBack
    }

    /// The consistency of the fields: the current step exists while steps
    /// are run, a publish name exactly while an identity is awaited, a
    /// failure exactly while rolling back.
    pub open spec fn wf(&self) -> bool {
        &&& (self.phase() == ChainPhase::Stepping || self.phase() == ChainPhase::Executing
            || self.phase() == ChainPhase::ReadingIdentity) ==> self.current_step()
            < self.step_count()
        &&& (self.phase() == ChainPhase::ReadingIdentity <==> self.publish_name() is Some)
        &&& self.phase() == ChainPhase::RollingBack <==> self.failure() is Some
    }

    /// A chain of `steps` steps, its transaction just begun, starting from
    /// the global map `globals`; and the first action.
    pub fn open(globals: SqlSingleParameters, steps: usize) -> (r: (ChainRun, ChainAction))
        ensures
            r.0.wf(),
            r.0.globals_view() == globals@,
            r.0.affected_view().len() == 0,
            r.0.step_count() == steps,
            r.0.current_step() == 0,
            steps > 0 ==> r.0.phase() == ChainPhase::Stepping && r.1 == ChainAction::InvokeStep(0),
            steps == 0 ==> r.0.phase() == ChainPhase::Committing && r.1 is Commit,
    {
        let phase = if steps > 0 {
            ChainPhase::Stepping
        } else {
            ChainPhase::Committing
        };
        let run = ChainRun {
            phase,
            steps,
            current: 0,
            globals,
            affected: Vec::new(),
            publish: None,
            failure: None,
        };
        let action = if steps > 0 {
            ChainAction::InvokeStep(0)
        } else {
            ChainAction::Commit
        };
        (run, action)
    }

    /// The global map, for invoking the current step.
    pub fn globals(&self) -> (r: &SqlSingleParameters)
        ensures
            r@ == self.globals_view(),
    {
        &self.globals
    }

    /// Whether `event` answers the pending action.
    pub fn accepts(&self, event: &ChainEvent) -> (r: bool)
        ensures
            r == event.fits(self.phase()),
    {
        match event {
            ChainEvent::StepReturned(_) => self.phase == ChainPhase::Stepping,
            ChainEvent::RowsAffected(_) => self.phase == ChainPhase::Executing,
            ChainEvent::IdentityReturned(_) => self.phase == ChainPhase::ReadingIdentity,
            ChainEvent::DriverFailed(_) => self.phase != ChainPhase::Committed && self.phase
                != ChainPhase::RolledBack,
            ChainEvent::Finished => self.phase == ChainPhase::Committing || self.phase
                == ChainPhase::RollingBack,
        }
    }

    /// Moves past the current step: to the next one, or to the commit.
    fn advance(&mut self) -> (a: ChainAction)
        requires
            old(self).current_step() < old(self).step_count(),
        ensures
            final(self).current_step() == old(self).current_step() + 1,
            final(self).step_count() == old(self).step_count(),
            final(self).globals_view() == old(self).globals_view(),
            final(self).affected_view() == old(self).affected_view(),
            final(self).failure() == old(self).failure(),
            final(self).publish_name() is None,
            final(self).current_step() < final(self).step_count() ==> final(self).phase()
                == ChainPhase::Stepping && a == ChainAction::InvokeStep(
                final(self).current_step() as usize,
            ),
            final(self).current_step() == final(self).step_count() ==> final(self).phase()
                == ChainPhase::Committing && a is Commit,
    {
        self.current = self.current + 1;
        self.publish = None;
        if self.current < self.steps {
            self.phase = ChainPhase::Stepping;
            ChainAction::InvokeStep(self.current)
        } else {
            self.phase = ChainPhase::Committing;
            ChainAction::Commit
        }
    }

    /// Starts rolling back because of `e`.
    fn fail(&mut self, e: SqlError) -> (a: ChainAction)
        ensures
            final(self).phase() == ChainPhase::RollingBack,
            final(self).failure() == Some(e),
            final(self).publish_name() is None,
            final(self).current_step() == old(self).current_step(),
            final(self).step_count() == old(self).step_count(),
            final(self).globals_view() == old(self).globals_view(),
            final(self).affected_view() == old(self).affected_view(),
            a is Rollback,
    {
        self.phase = ChainPhase::RollingBack;
        self.publish = None;
        self.failure = Some(e);
        ChainAction::Rollback
    }
}

impl ChainRun {
    /// Takes the outcome of the pending action and decides the next one.
    /// A step's statement is resolved against the parameters it hands back;
    /// an identity it returns is published under the step's name; every
    /// failure, of a step, of the resolution or of the driver, rolls the
    /// chain back and ends it with that failure; after the last step the
    /// chain commits and ends with the affected-row counts.
    pub fn handle(&mut self, event: ChainEvent) -> (a: ChainAction)
        requires
            old(self).wf(),
            event.fits(old(self).phase()),
        ensures
            final(self).wf(),
            final(self).step_count() == old(self).step_count(),
            event matches ChainEvent::StepReturned(Err(e)) ==> final(self).phase()
                == ChainPhase::RollingBack && final(self).failure() == Some(e) && a is Rollback
                && final(self).globals_view() == old(self).globals_view()
                && final(self).affected_view() == old(self).affected_view(),
            event matches ChainEvent::StepReturned(Ok(out)) ==> {
                &&& a is Execute || a is ReadIdentity || a is Rollback
                &&& a matches ChainAction::Execute(q) ==> out.2 is None && resolves_as(
                    out.0@,
                    opt_view(out.1),
                    Ok(q),
                ) && final(self).phase() == ChainPhase::Executing
                &&& a matches ChainAction::ReadIdentity(q) ==> (out.2 matches Some(n)
                    && final(self).publish_name() == Some(n@)) && resolves_as(
                    out.0@,
                    opt_view(out.1),
                    Ok(q),
                ) && final(self).phase() == ChainPhase::ReadingIdentity
                &&& a is Rollback ==> (final(self).failure() matches Some(e) && resolves_as(
                    out.0@,
                    opt_view(out.1),
                    Err(e),
                )) && final(self).phase() == ChainPhase::RollingBack
                &&& final(self).current_step() == old(self).current_step()
                &&& final(self).globals_view() == old(self).globals_view()
                &&& final(self).affected_view() == old(self).affected_view()
            },
            event matches ChainEvent::RowsAffected(v) ==> {
                &&& final(self).affected_view() == old(self).affected_view() + v@
                &&& final(self).globals_view() == old(self).globals_view()
                &&& final(self).current_step() == old(self).current_step() + 1
                &&& final(self).current_step() < final(self).step_count() ==> final(self).phase()
                    == ChainPhase::Stepping && a == ChainAction::InvokeStep(
                    final(self).current_step() as usize,
                )
                &&& final(self).current_step() == final(self).step_count() ==> final(self).phase()
                    == ChainPhase::Committing && a is Commit
            },
            event matches ChainEvent::IdentityReturned(Some(x)) ==> {
                &&& old(self).publish_name() matches Some(n) && final(self).globals_view()
                    == insert_pair(old(self).globals_view(), n, SqlValue::Int(x))
                &&& final(self).affected_view() == old(self).affected_view()
                &&& final(self).current_step() == old(self).current_step() + 1
                &&& final(self).current_step() < final(self).step_count() ==> final(self).phase()
                    == ChainPhase::Stepping && a == ChainAction::InvokeStep(
                    final(self).current_step() as usize,
                )
                &&& final(self).current_step() == final(self).step_count() ==> final(self).phase()
                    == ChainPhase::Committing && a is Commit
            },
            event matches ChainEvent::IdentityReturned(None) ==> final(self).phase()
                == ChainPhase::RollingBack && final(self).failure() == Some(SqlError::NoRowsReturned)
                && a is Rollback,
            event matches ChainEvent::DriverFailed(m) ==> if old(self).phase()
                == ChainPhase::RollingBack {
                final(self).phase() == ChainPhase::RolledBack && a == ChainAction::Finish(
                    Err(old(self).failure()->0),
                )
            } else {
                final(self).phase() == ChainPhase::RollingBack && final(self).failure() == Some(
                    SqlError::DriverError(m),
                ) && a is Rollback
            },
            event is Finished && old(self).phase() == ChainPhase::Committing ==> final(self).phase()
                == ChainPhase::Committed && (a matches ChainAction::Finish(Ok(v)) && v@ == old(
                self,
            ).affected_view()),
            event is Finished && old(self).phase() == ChainPhase::RollingBack ==> final(self).phase()
                == ChainPhase::RolledBack && a == ChainAction::Finish(Err(old(self).failure()->0)),
    {
        match event {
            ChainEvent::StepReturned(outcome) => {
                match outcome {
                    Err(e) => self.fail(e),
                    Ok((sql, params, publish)) => {
                        let resolved = parse_sql(sql.as_str(), params.as_ref());
                        match resolved {
                            Err(e) => self.fail(e),
                            Ok(q) => {
                                match publish {
                                    Some(name) => {
                                        self.phase = ChainPhase::ReadingIdentity;
                                        self.publish = Some(name);
                                        ChainAction::ReadIdentity(q)
                                    },
                                    None => {
                                        self.phase = ChainPhase::Executing;
                                        ChainAction::Execute(q)
                                    },
                                }
                            },
                        }
                    },
                }
            },
            ChainEvent::RowsAffected(v) => {
                let mut v = v;
                let ghost before = self.affected@;
                let ghost added = v@;
                self.affected.append(&mut v);
                proof {
                    assert(self.affected@ =~= before + added);
                }
                self.advance()
            },
            ChainEvent::IdentityReturned(Some(x)) => {
                let mut name: Option<String> = None;
                std::mem::swap(&mut name, &mut self.publish);
                match name {
                    Some(n) => {
                        self.globals.insert(n, SqlValue::Int(x));
                    },
                    None => {},
                }
                self.advance()
            },
            ChainEvent::IdentityReturned(None) => self.fail(SqlError::NoRowsReturned),
            ChainEvent::DriverFailed(m) => {
                if self.phase == ChainPhase::RollingBack {
                    self.finish_rollback()
                } else {
                    self.fail(SqlError::DriverError(m))
                }
            },
            ChainEvent::Finished => {
                if self.phase == ChainPhase::Committing {
                    self.phase = ChainPhase::Committed;
                    let mut counts: Vec<u64> = Vec::new();
                    std::mem::swap(&mut counts, &mut self.affected);
                    ChainAction::Finish(Ok(counts))
                } else {
                    self.finish_rollback()
                }
            },
        }
    }

    /// Ends a rollback with the failure that caused it.
    fn finish_rollback(&mut self) -> (a: ChainAction)
        requires
            old(self).wf(),
            old(self).phase() == ChainPhase::RollingBack,
        ensures
            final(self).wf(),
            final(self).phase() == ChainPhase::RolledBack,
            final(self).step_count() == old(self).step_count(),
            a == ChainAction::Finish(Err(old(self).failure()->0)),
    {
        self.phase = ChainPhase::RolledBack;
        let mut failure: Option<SqlError> = None;
        std::mem::swap(&mut failure, &mut self.failure);
        match failure {
            Some(e) => ChainAction::Finish(Err(e)),
            None => {
                proof {
                    assert(false);
                }
                ChainAction::Rollback
            },
        }
    }
}

} // verus!

verus! {

/// A chain that has committed or rolled back is over: no event answers it,
/// so it can neither commit nor roll back again.
pub proof fn finished_chain_takes_no_event(run: ChainRun, event: ChainEvent)
    requires
        !run.is_open(),
    ensures
        !event.fits(run.phase()),
{
}

} // verus!
