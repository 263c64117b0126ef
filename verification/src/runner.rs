//! The runner state machine: one robot's execution life-cycle.
//!
//! A runner is constructed from the robot's handshake — the one line it must
//! write before any turn — and then driven one turn at a time.  The caller
//! performs the reads, writes and timer races and hands the observed outcome
//! of each exchange to the machine as an event; the machine decides what the
//! turn returned, whether the runner stays usable, and which fault to report.
//! Turns are strictly sequential: a new turn may begin only when no turn is
//! in flight, so the outcome of turn *n* is always observed before turn
//! *n + 1* is issued.
//!
//! A robot-reported per-turn failure is returned for that turn but leaves the
//! runner ready: whether to keep playing such a robot is the caller's policy.
//! A malformed reply, a closed stream or an expired timer is terminal: the
//! runner is faulted and admits no further turn.

use vstd::prelude::*;

verus! {

/// A failure attributable to one robot, as surfaced to the match driver.
#[derive(Debug, Clone, PartialEq, Eq)]
pub enum ProgramError {
    /// The robot never completed a well-formed, successful handshake.
    InitError { summary: String, details: Option<String> },
    /// One turn exceeded its configured deadline.
    Timeout { millis: u64 },
    /// The robot's stream broke or produced an undecodable reply mid-match.
    IO { message: String },
    /// A failure the robot itself reported for one turn.
    Runtime { message: String },
}

/// The mathematical shape of a robot failure.
pub enum ProgramErrorV {
    InitError { summary: Seq<char>, details: Option<Seq<char>> },
    Timeout { millis: u64 },
    IO { message: Seq<char> },
    Runtime { message: Seq<char> },
}

impl View for ProgramError {
    type V = ProgramErrorV;

    open spec fn view(&self) -> ProgramErrorV {
        match self {
            ProgramError::InitError { summary, details } => ProgramErrorV::InitError {
                summary: summary@,
                details: details.deep_view(),
            },
            ProgramError::Timeout { millis } => ProgramErrorV::Timeout { millis: *millis },
            ProgramError::IO { message } => ProgramErrorV::IO { message: message@ },
            ProgramError::Runtime { message } => ProgramErrorV::Runtime { message: message@ },
        }
    }
}

/// What the robot's first line of output turned out to be.
#[derive(Debug, Clone, PartialEq, Eq)]
pub enum InitEvent {
    /// The line decoded as a successful handshake.
    Greeted,
    /// The line decoded as the robot's own initialization failure report.
    Reported { error: ProgramError },
    /// A line arrived but did not decode as a handshake.
    Malformed { line: String },
    /// The stream closed before any line arrived.
    Closed,
}

/// What one turn exchange turned out to be.
#[derive(Debug, Clone, PartialEq, Eq)]
pub enum TurnEvent {
    /// One line decoded as the robot's chosen actions; the line is handed
    /// back to the caller, whose engine interprets it.
    Responded { output: String },
    /// The robot reported a failure for this turn.
    Reported { error: ProgramError },
    /// A line arrived but did not decode as a turn reply.
    Malformed { line: String },
    /// The stream closed before the reply arrived.
    Closed,
    /// The configured deadline expired before the reply arrived.
    TimerExpired,
}

/// Where a runner stands in its life-cycle.
#[derive(Debug, Clone, Copy, PartialEq, Eq, Structural)]
pub enum RunnerState {
    /// Initialized and able to run a turn.
    Ready,
    /// Broken for good: no further turn will be attempted.
    Faulted,
    /// Dropped; its process, instance and directories are released.
    Closed,
}

/// The state a runner starts in, given its handshake outcome.
pub open spec fn spec_init_state(ev: InitEvent) -> RunnerState {
    if ev is Greeted {
        RunnerState::Ready
    } else {
        RunnerState::Faulted
    }
}

/// Summary text of an initialization fault: the line did not decode.
pub open spec fn spec_malformed_handshake_summary() -> Seq<char> {
    "robot handshake line did not decode"@
}

/// Summary text of an initialization fault: no line arrived at all.
pub open spec fn spec_missing_handshake_summary() -> Seq<char> {
    "robot closed its stream before the handshake"@
}

/// Message text of a turn fault: the reply did not decode.
pub open spec fn spec_malformed_reply_message(line: Seq<char>) -> Seq<char> {
    "turn reply did not decode: "@ + line
}

/// Message text of a turn fault: the stream closed mid-match.
pub open spec fn spec_closed_stream_message() -> Seq<char> {
    "robot closed its stream mid-match"@
}

/// The per-turn life-cycle of one robot.
pub struct RunnerCore {
    /// Where the runner stands.
    pub state: RunnerState,
    /// The per-turn deadline, if one is configured.
    pub timeout_millis: Option<u64>,
    /// How many turns have been issued.
    pub turns_started: u64,
    /// How many issued turns have had their outcome observed.
    pub turns_finished: u64,
}

impl RunnerCore {
    /// At most one turn is ever in flight.
    pub open spec fn wf(self) -> bool {
        self.turns_finished <= self.turns_started <= self.turns_finished + 1
    }

    /// A turn has been issued whose outcome is not yet observed.
    pub open spec fn in_flight(self) -> bool {
        self.turns_started == self.turns_finished + 1
    }

    /// A new turn may begin: the runner is ready and no turn is in flight.
    pub open spec fn can_begin(self) -> bool {
        self.state is Ready && !self.in_flight()
    }

    /// Builds a runner from the observed handshake.  The robot is ready
    /// exactly when it greeted; any other first contact is an
    /// initialization failure, reported and terminal.
    pub fn new(ev: InitEvent, timeout_millis: Option<u64>) -> (r: (RunnerCore, Result<
        (),
        ProgramError,
    >))
        ensures
            r.0.wf(),
            r.0.turns_started == 0,
            r.0.turns_finished == 0,
            r.0.timeout_millis == timeout_millis,
            r.0.state == spec_init_state(ev),
            r.1 is Ok <==> ev is Greeted,
            (ev matches InitEvent::Reported { error } ==> r.1 == Err::<(), ProgramError>(error)),
            (ev matches InitEvent::Malformed { line } ==> (r.1 matches Err(e) && e@ == (
            ProgramErrorV::InitError {
                summary: spec_malformed_handshake_summary(),
                details: Some(line@),
            }))),
            (ev is Closed ==> (r.1 matches Err(e) && e@ == (ProgramErrorV::InitError {
                summary: spec_missing_handshake_summary(),
                details: None,
            }))),
    {
        let (state, outcome): (RunnerState, Result<(), ProgramError>) = match ev {
            InitEvent::Greeted => (RunnerState::Ready, Ok(())),
            InitEvent::Reported { error } => (RunnerState::Faulted, Err(error)),
            InitEvent::Malformed { line } => (
                RunnerState::Faulted,
                Err(
                    ProgramError::InitError {
                        summary: "robot handshake line did not decode".to_owned(),
                        details: Some(line),
                    },
                ),
            ),
            InitEvent::Closed => (
                RunnerState::Faulted,
                Err(
                    ProgramError::InitError {
                        summary: "robot closed its stream before the handshake".to_owned(),
                        details: None,
                    },
                ),
            ),
        };
        (RunnerCore { state, timeout_millis, turns_started: 0, turns_finished: 0 }, outcome)
    }

    /// Configures the per-turn deadline.
    pub fn set_timeout(&mut self, millis: u64)
        ensures
            *final(self) == (RunnerCore { timeout_millis: Some(millis), ..*old(self) }),
    {
        self.timeout_millis = Some(millis);
    }

    /// Issues the next turn.  Allowed only on a ready runner with no turn
    /// in flight: the previous turn's outcome is always observed first.
    pub fn begin_turn(&mut self) -> (turn: u64)
        requires
            old(self).wf(),
            old(self).can_begin(),
            old(self).turns_started < u64::MAX,
        ensures
            final(self).wf(),
            final(self).in_flight(),
            final(self).state is Ready,
            final(self).turns_started == old(self).turns_started + 1,
            final(self).turns_finished == old(self).turns_finished,
            final(self).timeout_millis == old(self).timeout_millis,
            turn == old(self).turns_started + 1,
    {
        self.turns_started = self.turns_started + 1;
        self.turns_started
    }

    /// Observes the outcome of the turn in flight and decides what it
    /// returned and whether the runner stays usable.  A response or a
    /// robot-reported failure leaves the runner ready; a malformed reply,
    /// a closed stream or an expired timer faults it for good.  A timeout
    /// is reported exactly when the timer expired, and carries exactly the
    /// configured duration.
    pub fn finish_turn(&mut self, ev: TurnEvent) -> (r: Result<String, ProgramError>)
        requires
            old(self).wf(),
            old(self).state is Ready,
            old(self).in_flight(),
            ev is TimerExpired ==> old(self).timeout_millis is Some,
        ensures
            final(self).wf(),
            !final(self).in_flight(),
            final(self).turns_started == old(self).turns_started,
            final(self).turns_finished == old(self).turns_started,
            final(self).timeout_millis == old(self).timeout_millis,
            r is Ok <==> ev is Responded,
            (ev matches TurnEvent::Responded { output } ==> r == Ok::<String, ProgramError>(
                output,
            ) && final(self).state is Ready),
            (ev matches TurnEvent::Reported { error } ==> r == Err::<String, ProgramError>(error)
                && final(self).state is Ready),
            (ev matches TurnEvent::Malformed { line } ==> final(self).state is Faulted
                && (r matches Err(e) && e@ == (ProgramErrorV::IO {
                message: spec_malformed_reply_message(line@),
            }))),
            (ev is Closed ==> final(self).state is Faulted && (r matches Err(e) && e@ == (
            ProgramErrorV::IO { message: spec_closed_stream_message() }))),
            (ev is TimerExpired ==> final(self).state is Faulted && (r matches Err(e) && e@ == (
            ProgramErrorV::Timeout { millis: old(self).timeout_millis.unwrap() }))),
            (!(ev is Reported) ==> ((r matches Err(e) && e is Timeout) <==> ev
                is TimerExpired)),
    {
        self.turns_finished = self.turns_started;
        match ev {
            TurnEvent::Responded { output } => Ok(output),
            TurnEvent::Reported { error } => Err(error),
            TurnEvent::Malformed { line } => {
                self.state = RunnerState::Faulted;
                let mut message = "turn reply did not decode: ".to_owned();
                message.append(line.as_str());
                Err(ProgramError::IO { message })
            },
            TurnEvent::Closed => {
                self.state = RunnerState::Faulted;
                Err(ProgramError::IO { message: "robot closed its stream mid-match".to_owned() })
            },
            TurnEvent::TimerExpired => {
                self.state = RunnerState::Faulted;
                let millis = match self.timeout_millis {
                    Some(m) => m,
                    None => 0,  // unreachable: a timer only runs when a deadline is set
                };
                Err(ProgramError::Timeout { millis })
            },
        }
    }

    /// Releases the runner: the backing process or instance and any
    /// temporary directory go with it, whatever state preceded.
    pub fn close(&mut self)
        ensures
            *final(self) == (RunnerCore { state: RunnerState::Closed, ..*old(self) }),
    {
        self.state = RunnerState::Closed;
    }
}

/// Law: a runner whose handshake failed starts out faulted, and a faulted
/// runner admits no turn — so either initialization succeeds before any
/// turn is requested, or no turn is ever attempted.
pub proof fn lemma_init_gates_turns(ev: InitEvent, c: RunnerCore)
    requires
        c.state == spec_init_state(ev),
        !(ev is Greeted),
    ensures
        !c.can_begin(),
{
}

/// Law: whenever a new turn may begin, every turn issued so far has had its
/// outcome observed — turn *n + 1* is never issued before turn *n* resolves.
pub proof fn lemma_turn_ordering(c: RunnerCore)
    requires
        c.wf(),
        c.can_begin(),
    ensures
        c.turns_finished == c.turns_started,
{
}

/// One observable action in a runner's turn life-cycle.
#[derive(Debug, Clone, Copy, PartialEq, Eq, Structural)]
pub enum TurnOp {
    /// A turn was issued.
    Begin,
    /// An issued turn's outcome was observed.
    Finish,
}

/// How many turns a sequence of actions has issued.
pub open spec fn spec_begun(ops: Seq<TurnOp>) -> int
    decreases ops.len(),
{
    if ops.len() == 0 {
        0
    } else {
        spec_begun(ops.drop_last()) + if ops.last() is Begin {
            1int
        } else {
            0int
        }
    }
}

/// How many issued turns a sequence of actions has resolved.
pub open spec fn spec_done(ops: Seq<TurnOp>) -> int
    decreases ops.len(),
{
    if ops.len() == 0 {
        0
    } else {
        spec_done(ops.drop_last()) + if ops.last() is Finish {
            1int
        } else {
            0int
        }
    }
}

/// The turn discipline, as a property of a whole trace: a turn begins only
/// when every issued turn has been resolved, and an outcome is observed only
/// for the one turn in flight.  These are exactly the preconditions of
/// `begin_turn` and `finish_turn`, read off the counters.
pub open spec fn spec_turn_discipline(ops: Seq<TurnOp>) -> bool {
    forall|i: int| 0 <= i < ops.len() ==> match ops[i] {
        TurnOp::Begin => spec_begun(#[trigger] ops.take(i)) == spec_done(ops.take(i)),
        TurnOp::Finish => spec_begun(ops.take(i)) == spec_done(ops.take(i)) + 1,
    }
}

/// Law: under the turn discipline, at most one turn is ever in flight —
/// after any prefix of the trace, the turns issued never exceed the turns
/// resolved by more than one.  In particular the outcome of turn *n* is
/// observed before turn *n + 1* is issued, whatever order the caller tried.
pub proof fn lemma_turns_sequential(ops: Seq<TurnOp>, i: int)
    requires
        spec_turn_discipline(ops),
        0 <= i <= ops.len(),
    ensures
        spec_done(ops.take(i)) <= spec_begun(ops.take(i)) <= spec_done(ops.take(i)) + 1,
    decreases i,
{
    if i == 0 {
        assert(ops.take(0) =~= Seq::empty());
    } else {
        lemma_turns_sequential(ops, i - 1);
        assert(ops.take(i).drop_last() =~= ops.take(i - 1));
        assert(ops.take(i).last() == ops[i - 1]);
        match ops[i - 1] {
            TurnOp::Begin => {
                assert(spec_begun(ops.take(i - 1)) == spec_done(ops.take(i - 1)));
            },
            TurnOp::Finish => {
                assert(spec_begun(ops.take(i - 1)) == spec_done(ops.take(i - 1)) + 1);
            },
        }
    }
}

} // verus!
