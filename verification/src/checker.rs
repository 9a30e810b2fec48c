//! A set of checks and the course of a run through them.

use crate::check::{CheckFailed, CheckStatus, RecoverableCheck, UnrecoverableCheck};
use vstd::prelude::*;
use vstd::string::*;

verus! {

/// A check that can be part of a run.
#[derive(Clone, Copy, PartialEq, Eq, Debug, Structural)]
pub enum Check {
    /// The Kubernetes configuration loads and its server has a host.
    LoadableConfig,
    /// The Kubernetes server is not too old.
    K8Version,
    /// The installed helm is not too old.
    HelmVersion,
    /// The system chart is installed, once.
    SysChart,
    /// No cluster is installed yet.
    AlreadyInstalled,
    /// Services may be created.
    CreateServicePermission,
    /// Custom resource definitions may be created.
    CreateCrdPermission,
    /// Service accounts may be created.
    CreateServiceAccountPermission,
    /// A load balancer gives out addresses.
    LoadBalancer,
    /// A check of the caller's own, by the number the caller knows it by.
    Custom(usize),
}

/// The checks before any cluster is started.
pub open spec fn preflight_checks() -> Seq<Check> {
    seq![
        Check::LoadableConfig,
        Check::K8Version,
        Check::HelmVersion,
        Check::SysChart,
        Check::CreateServicePermission,
        Check::CreateCrdPermission,
        Check::CreateServiceAccountPermission,
        Check::LoadBalancer,
    ]
}

/// The checks before a cluster is started on Kubernetes.
pub open spec fn k8_checks() -> Seq<Check> {
    seq![Check::LoadableConfig, Check::HelmVersion, Check::SysChart, Check::LoadBalancer]
}

/// The checks before a local cluster is started.
pub open spec fn local_checks() -> Seq<Check> {
    seq![Check::HelmVersion, Check::K8Version, Check::LoadableConfig, Check::SysChart]
}

/// The checks of a run, in the order in which they are carried out.
#[derive(Debug)]
pub struct ClusterChecker {
    checks: Vec<Check>,
}

impl View for ClusterChecker {
    type V = Seq<Check>;

    closed spec fn view(&self) -> Seq<Check> {
        self.checks@
    }
}

impl ClusterChecker {
    /// A checker without checks.
    pub fn empty() -> (r: ClusterChecker)
        ensures
            r@ == Seq::<Check>::empty(),
    {
        ClusterChecker { checks: Vec::new() }
    }

    /// Adds one check at the end.
    pub fn with_check(self, check: Check) -> (r: ClusterChecker)
        ensures
            r@ == self@.push(check),
    {
        let mut checks = self.checks;
        checks.push(check);
        ClusterChecker { checks }
    }

    /// Adds the checks before any cluster is started.
    pub fn with_preflight_checks(self) -> (r: ClusterChecker)
        ensures
            r@ == self@ + preflight_checks(),
    {
        let mut checks = self.checks;
        checks.push(Check::LoadableConfig);
        checks.push(Check::K8Version);
        checks.push(Check::HelmVersion);
        checks.push(Check::SysChart);
        checks.push(Check::CreateServicePermission);
        checks.push(Check::CreateCrdPermission);
        checks.push(Check::CreateServiceAccountPermission);
        checks.push(Check::LoadBalancer);
        ClusterChecker { checks }
    }

    /// Adds the checks before a cluster is started on Kubernetes.
    pub fn with_k8_checks(self) -> (r: ClusterChecker)
        ensures
            r@ == self@ + k8_checks(),
    {
        let mut checks = self.checks;
        checks.push(Check::LoadableConfig);
        checks.push(Check::HelmVersion);
        checks.push(Check::SysChart);
        checks.push(Check::LoadBalancer);
        ClusterChecker { checks }
    }

    /// Adds the checks before a local cluster is started.
    pub fn with_local_checks(self) -> (r: ClusterChecker)
        ensures
            r@ == self@ + local_checks(),
    {
        let mut checks = self.checks;
        checks.push(Check::HelmVersion);
        checks.push(Check::K8Version);
        checks.push(Check::LoadableConfig);
        checks.push(Check::SysChart);
        ClusterChecker { checks }
    }

    /// How many checks there are.
    pub fn len(&self) -> (r: usize)
        ensures
            r == self@.len(),
    {
        self.checks.len()
    }

    /// The check at `index`.
    pub fn get(&self, index: usize) -> (r: Option<Check>)
        ensures
            r == if index < self@.len() {
                Some(self@[index as int])
            } else {
                None
            },
    {
        if index < self.checks.len() {
            Some(self.checks[index])
        } else {
            None
        }
    }

    /// Begins a run that carries out every check and keeps every result.
    pub fn run_wait(&self) -> (r: Run)
        ensures
            r == Run::start(RunMode::All),
    {
        Run { mode: RunMode::All, next: 0, stopped: false }
    }

    /// Begins a run that tries to fix what can be fixed, and ends at the
    /// first failure that stays.
    pub fn run_wait_and_fix(&self) -> (r: Run)
        ensures
            r == Run::start(RunMode::FixOrStop),
    {
        Run { mode: RunMode::FixOrStop, next: 0, stopped: false }
    }

    /// Begins a run that carries out every check and hands each result on
    /// as it comes.
    pub fn run_with_progress(&self) -> (r: Run)
        ensures
            r == Run::start(RunMode::All),
    {
        Run { mode: RunMode::All, next: 0, stopped: false }
    }

    /// Begins a run that tries to fix what can be fixed and hands each
    /// result on as it comes; it goes on when a fix fails, and ends at a
    /// failure that cannot be fixed, or at an error.
    pub fn run_and_fix_with_progress(&self) -> (r: Run)
        ensures
            r == Run::start(RunMode::FixAndGoOn),
    {
        Run { mode: RunMode::FixAndGoOn, next: 0, stopped: false }
    }
}

/// How a run treats failures.
#[derive(Clone, Copy, PartialEq, Eq, Debug, Structural)]
pub enum RunMode {
    /// Every check is carried out, whatever the others came to.
    All,
    /// What can be fixed is fixed; the first failure that stays ends the run.
    FixOrStop,
    /// What can be fixed is fixed, and a fix that fails does not end the
    /// run; a failure that cannot be fixed, or an error, does.
    FixAndGoOn,
}

/// Where a run stands.
#[derive(Clone, Copy, PartialEq, Eq, Debug, Structural)]
pub struct Run {
    /// How the run treats failures.
    pub mode: RunMode,
    /// The number of the check that comes next.
    pub next: usize,
    /// Whether the run has ended before its last check.
    pub stopped: bool,
}

/// What to do with the result of a check; `E` is how the caller holds the
/// error of a check that could not be carried out.
#[derive(Debug)]
pub enum Reaction<E> {
    /// Keep the result, or hand it on.
    Emit(Result<CheckStatus, E>),
    /// Try to fix the failure, and report the outcome with `Run::on_fix`.
    Fix(RecoverableCheck),
}

/// The message of a check that failed and was fixed.
pub open spec fn fixed_message(failed: RecoverableCheck) -> Seq<char> {
    "Fixed: "@ + failed.message_text()
}

impl Run {
    /// A run of the given kind before its first check.
    pub open spec fn start(mode: RunMode) -> Run {
        Run { mode, next: 0, stopped: false }
    }

    /// The check to carry out next, if the run is not over.
    pub open spec fn pending(self, checks: Seq<Check>) -> Option<Check> {
        if !self.stopped && self.next < checks.len() {
            Some(checks[self.next as int])
        } else {
            None
        }
    }

    /// The run after its next check has been dealt with.
    pub open spec fn advanced(self, stop: bool) -> Run {
        Run {
            mode: self.mode,
            next: if self.next < usize::MAX {
                (self.next + 1) as usize
            } else {
                self.next
            },
            stopped: self.stopped || stop,
        }
    }

    /// Whether the result of a check ends a run of this kind: in a run
    /// that fixes, a failure that cannot be fixed and an error do.
    pub open spec fn ends_run<E>(self, result: Result<CheckStatus, E>) -> bool {
        self.mode != RunMode::All && match result {
            Ok(CheckStatus::Pass(_)) => false,
            Ok(CheckStatus::Fail(CheckFailed::AutoRecoverable(_))) => false,
            _ => true,
        }
    }

    /// Whether the result of a check is a failure that this run tries to fix.
    pub open spec fn fixes<E>(self, result: Result<CheckStatus, E>) -> bool {
        self.mode != RunMode::All && result matches Ok(
            CheckStatus::Fail(CheckFailed::AutoRecoverable(_)),
        )
    }

    /// The check to carry out next; none when the run is over.
    pub fn next_check(&self, checker: &ClusterChecker) -> (r: Option<Check>)
        ensures
            r == self.pending(checker@),
    {
        if self.stopped {
            None
        } else {
            checker.get(self.next)
        }
    }

    /// Takes the result of the check that was pending. A failure that the
    /// run tries to fix is handed back for the fix, and the run stays where
    /// it is until `on_fix` is told the outcome. Every other result is to
    /// be kept, and the run moves on, or ends where the result ends it.
    pub fn on_result<E>(&mut self, result: Result<CheckStatus, E>) -> (r: Reaction<E>)
        ensures
            old(self).fixes(result) ==> r == Reaction::<E>::Fix(
                result->Ok_0->Fail_0->AutoRecoverable_0,
            ) && *final(self) == *old(self),
            !old(self).fixes(result) ==> r == Reaction::Emit(result) && *final(self) == old(
                self,
            ).advanced(old(self).ends_run(result)),
    {
        match self.mode {
            RunMode::All => {
                self.advance(false);
                Reaction::Emit(result)
            },
            _ => match result {
                Ok(CheckStatus::Pass(msg)) => {
                    self.advance(false);
                    Reaction::Emit(Ok(CheckStatus::Pass(msg)))
                },
                Ok(CheckStatus::Fail(CheckFailed::AutoRecoverable(it))) => Reaction::Fix(it),
                other => {
                    self.advance(true);
                    Reaction::Emit(other)
                },
            },
        }
    }

    /// Takes the outcome of a fix. A fix that worked makes the check pass,
    /// with a message that says what was fixed. A fix that failed makes it
    /// fail for good, and ends a run that stops at failures.
    pub fn on_fix(&mut self, failed: RecoverableCheck, outcome: Result<(), UnrecoverableCheck>) -> (r:
        CheckStatus)
        ensures
            match outcome {
                Ok(()) => r.is_pass(fixed_message(failed)) && *final(self) == old(self).advanced(
                    false,
                ),
                Err(e) => r == CheckStatus::Fail(CheckFailed::Unrecoverable(e)) && *final(self)
                    == old(self).advanced(old(self).mode == RunMode::FixOrStop),
            },
    {
        match outcome {
            Ok(()) => {
                self.advance(false);
                let mut msg = String::from_str("Fixed: ");
                let err = failed.message();
                msg.append(err.as_str());
                CheckStatus::pass(msg)
            },
            Err(e) => {
                let stop = match self.mode {
                    RunMode::FixOrStop => true,
                    _ => false,
                };
                self.advance(stop);
                CheckStatus::fail(CheckFailed::Unrecoverable(e))
            },
        }
    }

    /// Moves on to the next check, and ends the run where `stop` says so.
    fn advance(&mut self, stop: bool)
        ensures
            *final(self) == old(self).advanced(stop),
    {
        if self.next < usize::MAX {
            self.next = self.next + 1;
        }
        if stop {
            self.stopped = true;
        }
    }
}

} // verus!
