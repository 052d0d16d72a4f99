//! The controller: one run at a time, stepped tick by tick, from start to a
//! safe shutdown.
use vstd::prelude::*;
use crate::log::{Date, Log, LogEntry, LogError, Logger, log_name, names_of, next_timestamp, valid_date};
use crate::pid::{Pid, PidParameters, PidState, Reference, command, next_state};
use crate::reference::{ReferenceSeries, setpoint_at};

verus! {

/// Something that measures the process.
pub trait Sensor {
    /// The current measurement, or `None` where it could not be read.
    fn read(&self) -> Option<i64>;
}

/// Something that acts on the process.
pub trait Output {
    /// Applies a command (expected in 0 to 100); `false` where it could not
    /// be written.
    fn set(&mut self, command: i128) -> bool;

    /// Brings the process to its safe state.
    fn turn_off(&mut self);
}

#[derive(Clone, Copy, Debug, PartialEq, Eq, Structural)]
pub enum StartError {
    /// A run is active already.
    AlreadyRunning,
    /// The reference series has no segment.
    Configuration,
    /// A log of the run's name exists already.
    NameCollision,
    /// The date given for the log's name does not exist.
    InvalidDate,
}

/// How a run ended.
#[derive(Clone, Copy, Debug, PartialEq, Eq, Structural)]
pub enum RunEnd {
    /// Every segment of the series was held.
    Completed,
    /// `stop` was called.
    Stopped,
    /// The sensor could not be read.
    SensorFailed,
    /// The output could not be written.
    OutputFailed,
    /// The log could not take another entry.
    LogFailed,
}

/// What one tick did.
#[derive(Clone, Copy, Debug, PartialEq, Eq, Structural)]
pub enum TickOutcome {
    /// No run is active.
    Idle,
    /// One control step was taken and logged.
    Stepped(LogEntry),
    /// The run ended, and the output was turned off.
    Ended(RunEnd),
}

struct Run {
    logger: Logger,
    series: ReferenceSeries,
    pid: Pid,
}

/// A controller with its own sensor, output and tuning.
pub struct Controller<S: Sensor, O: Output> {
    sensor: S,
    output: O,
    pid_parameters: PidParameters,
    frequency: u64,
    run: Option<Run>,
    last_end: Option<RunEnd>,
    shutdowns: Ghost<nat>,
}

impl<S: Sensor, O: Output> Controller<S, O> {
    /// The run, if any, is well formed, and the tick frequency is positive.
    pub closed spec fn wf(&self) -> bool {
        &&& self.frequency > 0
        &&& self.run matches Some(r) ==> r.logger.wf() && r.pid.parameters() == self.pid_parameters
    }

    pub closed spec fn is_running(&self) -> bool {
        self.run is Some
    }

    pub closed spec fn parameters(&self) -> PidParameters {
        self.pid_parameters
    }

    pub closed spec fn frequency(&self) -> nat {
        self.frequency as nat
    }

    /// The name of the active run's log (empty when idle).
    pub closed spec fn run_name(&self) -> Seq<char> {
        match self.run {
            Some(r) => r.logger.name(),
            None => Seq::empty(),
        }
    }

    /// The name of the series that the active run follows (empty when idle).
    pub closed spec fn run_reference(&self) -> Seq<char> {
        match self.run {
            Some(r) => r.logger.reference_name(),
            None => Seq::empty(),
        }
    }

    /// The series that the active run follows (empty when idle).
    pub closed spec fn series(&self) -> Seq<Reference> {
        match self.run {
            Some(r) => r.series@,
            None => Seq::empty(),
        }
    }

    /// The entries logged by the active run (empty when idle).
    pub closed spec fn run_log(&self) -> Seq<LogEntry> {
        match self.run {
            Some(r) => r.logger@,
            None => Seq::empty(),
        }
    }

    /// The state of the active run's PID engine.
    pub closed spec fn pid_state(&self) -> PidState {
        match self.run {
            Some(r) => r.pid.state(),
            None => PidState { accumulator: 0, previous_input: 0 },
        }
    }

    /// How the last run ended, if one did.
    pub closed spec fn last_end(&self) -> Option<RunEnd> {
        self.last_end
    }

    /// How many times a run has been shut down, and so how many times the
    /// output has been turned off.
    pub closed spec fn shutdowns(&self) -> nat {
        self.shutdowns@
    }

    /// The last entry of the active run, if it has made one.
    pub open spec fn last_entry(&self) -> Option<LogEntry> {
        if self.run_log().len() == 0 {
            None
        } else {
            Some(self.run_log().last())
        }
    }

    /// An idle controller. `frequency` is the number of ticks per second.
    pub fn new(sensor: S, output: O, pid_parameters: PidParameters, frequency: u64) -> (r:
        Controller<S, O>)
        requires
            frequency > 0,
        ensures
            r.wf(),
            !r.is_running(),
            r.run_log() == Seq::<LogEntry>::empty(),
            r.parameters() == pid_parameters,
            r.frequency() == frequency,
            r.last_end() is None,
            r.shutdowns() == 0,
    {
        Controller {
            sensor,
            output,
            pid_parameters,
            frequency,
            run: None,
            last_end: None,
            shutdowns: Ghost(0),
        }
    }

    pub fn frequency_hz(&self) -> (r: u64)
        ensures
            r == self.frequency(),
    {
        self.frequency
    }

    /// Starts a run that follows `reference_series`, logged under
    /// `<reference_name>-<date>`; `existing_logs` are the names of the logs
    /// kept already. It returns at once: the run advances by `tick`.
    pub fn start(
        &mut self,
        reference_name: String,
        reference_series: ReferenceSeries,
        date: &Date,
        existing_logs: &Vec<String>,
    ) -> (r: Result<(), StartError>)
        requires
            old(self).wf(),
        ensures
            final(self).wf(),
            old(self).is_running() ==> r == Err::<(), StartError>(StartError::AlreadyRunning),
            !old(self).is_running() && reference_series@.len() == 0 ==> r == Err::<
                (),
                StartError,
            >(StartError::Configuration),
            !old(self).is_running() && reference_series@.len() > 0 ==> {
                &&& (r is Ok <==> valid_date(*date) && !names_of(existing_logs@).contains(
                    log_name(reference_name@, *date),
                ))
                &&& (r == Err::<(), StartError>(StartError::InvalidDate) <==> !valid_date(*date))
                &&& (r == Err::<(), StartError>(StartError::NameCollision) <==> valid_date(*date)
                    && names_of(existing_logs@).contains(log_name(reference_name@, *date)))
            },
            r is Err ==> *final(self) == *old(self),
            r is Ok ==> {
                &&& !old(self).is_running()
                &&& final(self).is_running()
                &&& final(self).run_name() == log_name(reference_name@, *date)
                &&& !names_of(existing_logs@).contains(final(self).run_name())
                &&& final(self).run_reference() == reference_name@
                &&& final(self).series() == reference_series@
                &&& final(self).run_log() == Seq::<LogEntry>::empty()
                &&& final(self).pid_state() == (PidState { accumulator: 0, previous_input: 0 })
                &&& final(self).parameters() == old(self).parameters()
                &&& final(self).frequency() == old(self).frequency()
                &&& final(self).last_end() == old(self).last_end()
                &&& final(self).shutdowns() == old(self).shutdowns()
            },
    {
        if self.run.is_some() {
            return Err(StartError::AlreadyRunning);
        }
        if reference_series.len() == 0 {
            return Err(StartError::Configuration);
        }
        let logger = match Logger::new(reference_name, date, existing_logs) {
            Ok(l) => l,
            Err(LogError::NameCollision) => {
                return Err(StartError::NameCollision);
            },
            Err(_) => {
                return Err(StartError::InvalidDate);
            },
        };
        let pid = Pid::new(&self.pid_parameters);
        self.run = Some(Run { logger, series: reference_series, pid });
        Ok(())
    }

    /// Ends the active run: turns the output off, once, and goes idle.
    fn shut_down(&mut self, end: RunEnd)
        requires
            old(self).wf(),
            old(self).is_running(),
        ensures
            final(self).wf(),
            !final(self).is_running(),
            final(self).run_log() == Seq::<LogEntry>::empty(),
            final(self).last_end() == Some(end),
            final(self).shutdowns() == old(self).shutdowns() + 1,
            final(self).parameters() == old(self).parameters(),
            final(self).frequency() == old(self).frequency(),
    {
        self.output.turn_off();
        self.run = None;
        self.last_end = Some(end);
        self.shutdowns = Ghost(self.shutdowns@ + 1);
    }

    /// One control step, `elapsed_ms` after the start of the run, at the
    /// wall-clock instant `now_ms`. The setpoint is the one the series holds
    /// at `elapsed_ms`; once the series is over the run completes. Otherwise
    /// the sensor is read, the PID engine evaluated, the command written to
    /// the output and the step logged. A sensor, output or log failure ends
    /// the run. Every end of a run turns the output off exactly once.
    pub fn tick(&mut self, elapsed_ms: u64, now_ms: u64) -> (r: TickOutcome)
        requires
            old(self).wf(),
        ensures
            final(self).wf(),
            final(self).parameters() == old(self).parameters(),
            final(self).frequency() == old(self).frequency(),
            !old(self).is_running() ==> r == TickOutcome::Idle && *final(self) == *old(self),
            old(self).is_running() && setpoint_at(old(self).series(), elapsed_ms as int) is None
                ==> r == TickOutcome::Ended(RunEnd::Completed),
            r matches TickOutcome::Ended(end) ==> {
                &&& old(self).is_running()
                &&& !final(self).is_running()
                &&& final(self).run_log() == Seq::<LogEntry>::empty()
                &&& final(self).last_end() == Some(end)
                &&& final(self).shutdowns() == old(self).shutdowns() + 1
                &&& end == RunEnd::Completed ==> setpoint_at(
                    old(self).series(),
                    elapsed_ms as int,
                ) is None
                &&& end == RunEnd::LogFailed ==> next_timestamp(old(self).last_entry(), now_ms)
                    is None
                &&& end != RunEnd::Stopped
            },
            r matches TickOutcome::Stepped(e) ==> {
                &&& old(self).is_running()
                &&& final(self).is_running()
                &&& setpoint_at(old(self).series(), elapsed_ms as int) == Some(e.reference as u32)
                &&& e.output == command(
                    old(self).parameters(),
                    old(self).pid_state(),
                    e.input as int,
                    e.reference as int,
                )
                &&& Some(e.timestamp) == next_timestamp(old(self).last_entry(), now_ms)
                &&& final(self).run_log() == old(self).run_log().push(e)
                &&& final(self).pid_state() == next_state(
                    old(self).parameters(),
                    old(self).pid_state(),
                    e.input as int,
                    e.reference as int,
                )
                &&& final(self).run_name() == old(self).run_name()
                &&& final(self).run_reference() == old(self).run_reference()
                &&& final(self).series() == old(self).series()
                &&& final(self).last_end() == old(self).last_end()
                &&& final(self).shutdowns() == old(self).shutdowns()
            },
    {
        let setpoint = match &self.run {
            None => {
                return TickOutcome::Idle;
            },
            Some(run) => run.series.setpoint_at(elapsed_ms),
        };
        let setpoint = match setpoint {
            None => {
                self.shut_down(RunEnd::Completed);
                return TickOutcome::Ended(RunEnd::Completed);
            },
            Some(s) => s as i64,
        };
        let input = match self.sensor.read() {
            None => {
                self.shut_down(RunEnd::SensorFailed);
                return TickOutcome::Ended(RunEnd::SensorFailed);
            },
            Some(y) => y,
        };
        let mut run = self.run.take().unwrap();
        let u = run.pid.pid(input, setpoint);
        if !self.output.set(u) {
            self.run = Some(run);
            self.shut_down(RunEnd::OutputFailed);
            return TickOutcome::Ended(RunEnd::OutputFailed);
        }
        let logged = run.logger.add_entry(setpoint, input, u, now_ms);
        self.run = Some(run);
        match logged {
            Ok(e) => TickOutcome::Stepped(e),
            Err(_) => {
                self.shut_down(RunEnd::LogFailed);
                TickOutcome::Ended(RunEnd::LogFailed)
            },
        }
    }

    /// Stops the active run, with the same safe shutdown as its completion;
    /// returns whether a run was active. On an idle controller it does
    /// nothing.
    pub fn stop(&mut self) -> (r: bool)
        requires
            old(self).wf(),
        ensures
            final(self).wf(),
            r == old(self).is_running(),
            !r ==> *final(self) == *old(self),
            r ==> !final(self).is_running() && final(self).run_log() == Seq::<LogEntry>::empty()
                && final(self).last_end() == Some(RunEnd::Stopped)
                && final(self).shutdowns() == old(self).shutdowns() + 1,
            final(self).parameters() == old(self).parameters(),
            final(self).frequency() == old(self).frequency(),
    {
        if self.run.is_none() {
            return false;
        }
        self.shut_down(RunEnd::Stopped);
        true
    }

    /// The last entry logged by the active run; `None` when idle or before
    /// the run's first step.
    pub fn get_last_log_entry(&self) -> (r: Option<LogEntry>)
        requires
            self.wf(),
        ensures
            r == self.last_entry(),
    {
        match &self.run {
            Some(run) => run.logger.get_last_entry(),
            None => None,
        }
    }

    /// The name of the active run's log; `None` when idle.
    pub fn get_name_of_current_process(&self) -> (r: Option<String>)
        ensures
            r is Some == self.is_running(),
            r matches Some(s) ==> s@ == self.run_name(),
    {
        match &self.run {
            Some(run) => Some(run.logger.get_name()),
            None => None,
        }
    }

    /// The log written so far by the active run; `None` when idle.
    pub fn current_log(&self) -> (r: Option<&Log>)
        ensures
            r is Some == self.is_running(),
            r matches Some(l) ==> l@ == self.run_log() && l.reference_name()
                == self.run_reference(),
    {
        match &self.run {
            Some(run) => Some(run.logger.log()),
            None => None,
        }
    }

    /// How the last run ended, if one did.
    pub fn last_run_end(&self) -> (r: Option<RunEnd>)
        ensures
            r == self.last_end(),
    {
        self.last_end
    }
}

} // verus!
