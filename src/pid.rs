//! The PID control law, in integer arithmetic.
use vstd::prelude::*;

verus! {

/// One segment of a reference profile: hold `temp` for `duration` seconds.
#[derive(Clone, Copy, Debug, PartialEq, Eq, Structural)]
pub struct Reference {
    pub duration: u64,
    pub temp: u32,
}

/// Tuning constants of the controller. `max_integrator` bounds the
/// magnitude of the integral accumulator (anti-windup).
#[derive(Clone, Copy, Debug, PartialEq, Eq, Structural)]
pub struct PidParameters {
    pub kp: i32,
    pub ki: i32,
    pub kd: i32,
    pub max_integrator: u64,
}

impl PidParameters {
    pub fn new(kp: i32, ki: i32, kd: i32, max_integrator: u64) -> (r: PidParameters)
        ensures
            r == (PidParameters { kp, ki, kd, max_integrator }),
    {
        PidParameters { kp, ki, kd, max_integrator }
    }

    pub fn get_parameters(&self) -> (r: (i32, i32, i32))
        ensures
            r == (self.kp, self.ki, self.kd),
    {
        (self.kp, self.ki, self.kd)
    }
}

/// kp = 1, ki = 0, kd = 0, and an accumulator bounded only by `u64::MAX`.
impl Default for PidParameters {
    fn default() -> (r: PidParameters)
        ensures
            r == (PidParameters { kp: 1, ki: 0, kd: 0, max_integrator: u64::MAX }),
    {
        PidParameters { kp: 1, ki: 0, kd: 0, max_integrator: u64::MAX }
    }
}

/// `v` clamped symmetrically into `[-bound, bound]`.
pub open spec fn clamp(v: int, bound: int) -> int {
    if v > bound {
        bound
    } else if v < -bound {
        -bound
    } else {
        v
    }
}

/// The mathematical state of the PID engine.
pub struct PidState {
    pub accumulator: int,
    pub previous_input: int,
}

/// The state after evaluating `input` against `reference` in state `s`.
pub open spec fn next_state(p: PidParameters, s: PidState, input: int, reference: int) -> PidState {
    PidState {
        accumulator: clamp(s.accumulator + (reference - input), p.max_integrator as int),
        previous_input: input,
    }
}

/// The command computed when evaluating `input` against `reference` in state `s`.
pub open spec fn command(p: PidParameters, s: PidState, input: int, reference: int) -> int {
    let error = reference - input;
    let acc = next_state(p, s, input, reference).accumulator;
    p.kp * error + p.ki * acc + p.kd * (input - s.previous_input)
}

/// The commands produced by feeding `samples`, pairs of (measurement,
/// setpoint), one after another to an engine in state `s`.
pub open spec fn commands(p: PidParameters, s: PidState, samples: Seq<(i64, i64)>) -> Seq<int>
    decreases samples.len(),
{
    if samples.len() == 0 {
        Seq::empty()
    } else {
        let (input, reference) = samples[0];
        seq![command(p, s, input as int, reference as int)] + commands(
            p,
            next_state(p, s, input as int, reference as int),
            samples.drop_first(),
        )
    }
}

/// The state reached after feeding `samples` to an engine in state `s`.
pub open spec fn final_state(p: PidParameters, s: PidState, samples: Seq<(i64, i64)>) -> PidState
    decreases samples.len(),
{
    if samples.len() == 0 {
        s
    } else {
        let (input, reference) = samples[0];
        final_state(p, next_state(p, s, input as int, reference as int), samples.drop_first())
    }
}

/// A PID engine: its parameters, the integral accumulator and the previous
/// measurement.
pub struct Pid {
    parameters: PidParameters,
    accumulator: i128,
    previous_input: i64,
}

impl Pid {
    #[verifier::type_invariant]
    spec fn accumulator_bounded(&self) -> bool {
        -(self.parameters.max_integrator as int) <= self.accumulator <= self.parameters.max_integrator
    }

    /// `|accumulator| <= max_integrator`; it holds of every engine.
    pub open spec fn accumulator_within_bound(&self) -> bool {
        -(self.parameters().max_integrator as int) <= self.state().accumulator
            <= self.parameters().max_integrator
    }

    pub closed spec fn parameters(&self) -> PidParameters {
        self.parameters
    }

    pub closed spec fn state(&self) -> PidState {
        PidState { accumulator: self.accumulator as int, previous_input: self.previous_input as int }
    }

    /// A fresh engine: accumulator and previous measurement are zero.
    pub fn new(parameters: &PidParameters) -> (r: Pid)
        ensures
            r.parameters() == *parameters,
            r.state() == (PidState { accumulator: 0, previous_input: 0 }),
            r.accumulator_within_bound(),
    {
        Pid { parameters: *parameters, accumulator: 0, previous_input: 0 }
    }

    /// Evaluates the control law on a measurement and a setpoint, and
    /// advances the state.
    pub fn pid(&mut self, input: i64, reference: i64) -> (r: i128)
        ensures
            final(self).parameters() == old(self).parameters(),
            r == command(old(self).parameters(), old(self).state(), input as int, reference as int),
            final(self).state() == next_state(
                old(self).parameters(),
                old(self).state(),
                input as int,
                reference as int,
            ),
            final(self).accumulator_within_bound(),
    {
        proof {
            use_type_invariant(&*self);
        }
        let (kp, ki, kd) = self.parameters.get_parameters();
        let bound = self.parameters.max_integrator as i128;
        let error: i128 = reference as i128 - input as i128;
        let tmp: i128 = self.accumulator + error;
        let acc: i128 = if tmp > bound {
            bound
        } else if tmp < -bound {
            -bound
        } else {
            tmp
        };
        let derivative: i128 = input as i128 - self.previous_input as i128;
        assert(-0x1_0000_0000_0000_0000 <= acc <= 0x1_0000_0000_0000_0000);
        assert(-0x8000_0000 * 0x2_0000_0000_0000_0000 <= kp as i128 * error <= 0x8000_0000
            * 0x2_0000_0000_0000_0000) by (nonlinear_arith)
            requires
                -0x8000_0000 <= kp <= 0x8000_0000,
                -0x2_0000_0000_0000_0000 <= error <= 0x2_0000_0000_0000_0000,
        ;
        assert(-0x8000_0000 * 0x2_0000_0000_0000_0000 <= ki as i128 * acc <= 0x8000_0000
            * 0x2_0000_0000_0000_0000) by (nonlinear_arith)
            requires
                -0x8000_0000 <= ki <= 0x8000_0000,
                -0x2_0000_0000_0000_0000 <= acc <= 0x2_0000_0000_0000_0000,
        ;
        assert(-0x8000_0000 * 0x2_0000_0000_0000_0000 <= kd as i128 * derivative <= 0x8000_0000
            * 0x2_0000_0000_0000_0000) by (nonlinear_arith)
            requires
                -0x8000_0000 <= kd <= 0x8000_0000,
                -0x2_0000_0000_0000_0000 <= derivative <= 0x2_0000_0000_0000_0000,
        ;
        self.accumulator = acc;
        self.previous_input = input;
        kp as i128 * error + ki as i128 * acc + kd as i128 * derivative
    }
}

/// Determinism: two engines with the same parameters and the same state,
/// fed the same sequence of (measurement, setpoint) pairs, produce the same
/// commands and end in the same state; and the accumulator stays within
/// `max_integrator` in magnitude after every step.
pub proof fn lemma_pid_deterministic(
    p: PidParameters,
    s1: PidState,
    s2: PidState,
    samples: Seq<(i64, i64)>,
)
    requires
        s1 == s2,
        -(p.max_integrator as int) <= s1.accumulator <= p.max_integrator,
    ensures
        commands(p, s1, samples) == commands(p, s2, samples),
        final_state(p, s1, samples) == final_state(p, s2, samples),
        -(p.max_integrator as int) <= final_state(p, s1, samples).accumulator <= p.max_integrator,
    decreases samples.len(),
{
    if samples.len() > 0 {
        let (input, reference) = samples[0];
        let n = next_state(p, s1, input as int, reference as int);
        lemma_pid_deterministic(p, n, n, samples.drop_first());
    }
}

} // verus!
