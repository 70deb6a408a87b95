//! The whole of one invocation: the options are checked, the graveyard is chosen and
//! made if it is missing, and the one thing that was asked for is done: the graveyard
//! is erased, graves are emptied, graves are listed, the usage is printed, or the
//! targets are buried one after the other until one of them fails.

use crate::args::{validate_args, validated, Args, ArgsError, ArgsView, optional_view};
use crate::bury::{bury_fresh, bury_step, bury_target, BuryState, BuryStateView};
use crate::exhume::{
    seance, seance_fresh, seance_step, unbury, unbury_fresh, unbury_step, SeanceState,
    SeanceStateView, UnburyState, UnburyStateView,
};
use crate::host::{
    failure, relay, relayed, request, Action, ErrorKind, Event, EventView, Failure, FailureView,
    Op, Reason, Step, StepView,
};
use crate::path::{append_from, to_owned_bytes, SEPARATOR};
use vstd::prelude::*;

verus! {

/// What the process finds around it.
#[derive(Debug)]
pub struct Environment {
    /// The graveyard that the environment names, if it names one.
    pub graveyard: Option<Vec<u8>>,
    /// The directory for the user's data, if the environment names one.
    pub data_home: Option<Vec<u8>>,
    /// The user's name, if the environment tells it.
    pub user: Option<Vec<u8>>,
    /// The current directory, if it can be told.
    pub cwd: Option<Vec<u8>>,
}

/// What the process finds around it, as a value of the model.
pub struct EnvironmentView {
    pub graveyard: Option<Seq<u8>>,
    pub data_home: Option<Seq<u8>>,
    pub user: Option<Seq<u8>>,
    pub cwd: Option<Seq<u8>>,
}

impl View for Environment {
    type V = EnvironmentView;

    open spec fn view(&self) -> EnvironmentView {
        EnvironmentView {
            graveyard: optional_view(self.graveyard),
            data_home: optional_view(self.data_home),
            user: optional_view(self.user),
            cwd: optional_view(self.cwd),
        }
    }
}

/// The bytes of `/tmp/graveyard`.
pub open spec fn default_base() -> Seq<u8> {
    seq![47u8, 116u8, 109u8, 112u8, 47u8, 103u8, 114u8, 97u8, 118u8, 101u8, 121u8, 97u8, 114u8,
        100u8]
}

/// The bytes of `graveyard`.
pub open spec fn graveyard_name() -> Seq<u8> {
    seq![103u8, 114u8, 97u8, 118u8, 101u8, 121u8, 97u8, 114u8, 100u8]
}

/// The bytes of `unknown`.
pub open spec fn unknown_user() -> Seq<u8> {
    seq![117u8, 110u8, 107u8, 110u8, 111u8, 119u8, 110u8]
}

/// The graveyard of a user for whom none is named: `/tmp/graveyard-` and the user's
/// name, or `unknown` in its place.
pub open spec fn default_graveyard_of(user: Option<Seq<u8>>) -> Seq<u8> {
    default_base() + seq![45u8] + match user {
        Some(name) => name,
        None => unknown_user(),
    }
}

/// The graveyard of one invocation: the one named on the command line; else the one
/// that the environment names; else `graveyard` in the directory for the user's data;
/// else the default.
pub open spec fn chosen_graveyard(flag: Option<Seq<u8>>, env: EnvironmentView) -> Seq<u8> {
    match flag {
        Some(path) => path,
        None => match env.graveyard {
            Some(path) => path,
            None => match env.data_home {
                Some(home) => if home.len() > 0 && home.last() == SEPARATOR {
                    home + graveyard_name()
                } else {
                    home + seq![SEPARATOR] + graveyard_name()
                },
                None => default_graveyard_of(env.user),
            },
        },
    }
}

/// The graveyard of a user for whom none is named.
pub fn default_graveyard(user: &Option<Vec<u8>>) -> (path: Vec<u8>)
    ensures
        path@ == default_graveyard_of(optional_view(*user)),
{
    let base: [u8; 14] = [47, 116, 109, 112, 47, 103, 114, 97, 118, 101, 121, 97, 114, 100];
    let unknown: [u8; 7] = [117, 110, 107, 110, 111, 119, 110];
    let mut path = to_owned_bytes(base.as_slice());
    path.push(45);
    match user {
        Some(name) => {
            append_from(&mut path, name.as_slice(), 0);
        },
        None => {
            append_from(&mut path, unknown.as_slice(), 0);
        },
    }
    path
}

/// The graveyard of one invocation.
pub fn select_graveyard(flag: &Option<Vec<u8>>, env: &Environment) -> (path: Vec<u8>)
    ensures
        path@ == chosen_graveyard(optional_view(*flag), env@),
{
    match flag {
        Some(path) => to_owned_bytes(path.as_slice()),
        None => match &env.graveyard {
            Some(path) => to_owned_bytes(path.as_slice()),
            None => match &env.data_home {
                Some(home) => {
                    let name: [u8; 9] = [103, 114, 97, 118, 101, 121, 97, 114, 100];
                    let mut path = to_owned_bytes(home.as_slice());
                    if !(home.len() > 0 && home[home.len() - 1] == SEPARATOR) {
                        path.push(SEPARATOR);
                    }
                    append_from(&mut path, name.as_slice(), 0);
                    path
                },
                None => default_graveyard(&env.user),
            },
        },
    }
}

/// What the invocation is waiting for.
#[derive(Clone, Copy, Debug, PartialEq, Eq, Structural)]
pub enum RunPhase {
    /// Nothing was asked yet.
    Start,
    /// The answer to whether the graveyard exists.
    Graveyard,
    /// The making of the graveyard.
    Create,
    /// The answer to whether the graveyard is to be erased.
    Decompose,
    /// The removal of the graveyard.
    Erase,
    /// A step of the way back.
    Unbury,
    /// A step of the listing of graves.
    Seance,
    /// The printing of the usage.
    Help,
    /// A step of the burial of the target at `index`.
    Bury,
}

/// How far an invocation has come.
#[derive(Debug)]
pub struct RunState {
    pub phase: RunPhase,
    pub graveyard: Vec<u8>,
    /// How many targets are done with.
    pub index: usize,
    pub bury: BuryState,
    pub unbury: UnburyState,
    pub seance: SeanceState,
}

/// How far an invocation has come, as a value of the model.
pub struct RunStateView {
    pub phase: RunPhase,
    pub graveyard: Seq<u8>,
    pub index: nat,
    pub bury: BuryStateView,
    pub unbury: UnburyStateView,
    pub seance: SeanceStateView,
}

impl View for RunState {
    type V = RunStateView;

    open spec fn view(&self) -> RunStateView {
        RunStateView {
            phase: self.phase,
            graveyard: self.graveyard@,
            index: self.index as nat,
            bury: self.bury@,
            unbury: self.unbury@,
            seance: self.seance@,
        }
    }
}

/// The state of an invocation of which nothing was asked yet.
pub open spec fn run_fresh() -> RunStateView {
    RunStateView {
        phase: RunPhase::Start,
        graveyard: Seq::<u8>::empty(),
        index: 0,
        bury: bury_fresh(),
        unbury: unbury_fresh(),
        seance: seance_fresh(),
    }
}

/// The end of an invocation with `result`.
pub open spec fn run_ends(result: Result<(), FailureView>) -> (RunStateView, StepView<()>) {
    (run_fresh(), StepView::Finished(result))
}

/// The end of an invocation because the host answered what it was not asked.
pub open spec fn run_confused() -> (RunStateView, StepView<()>) {
    run_ends(Err(failure(ErrorKind::Internal, Reason::Protocol, Seq::<u8>::empty())))
}

/// The burial of the target at `index` begins; when no target is left, the
/// invocation ends.
pub open spec fn run_buries(cli: ArgsView, cwd: Seq<u8>, state: RunStateView) -> (
    RunStateView,
    StepView<()>,
) {
    if state.index >= cli.targets.len() {
        run_ends(Ok(()))
    } else {
        let first = bury_step(
            cli.targets[state.index as int],
            state.graveyard,
            cwd,
            cli.inspect,
            bury_fresh(),
            EventView::Start,
        );
        (RunStateView { phase: RunPhase::Bury, bury: first.0, ..state }, relayed(first.1))
    }
}

/// The graveyard is there: what was asked for begins.
pub open spec fn run_ready(cli: ArgsView, env: EnvironmentView, state: RunStateView) -> (
    RunStateView,
    StepView<()>,
) {
    if cli.decompose {
        (
            RunStateView { phase: RunPhase::Decompose, ..state },
            StepView::Perform(request(Op::ConfirmDecompose, state.graveyard)),
        )
    } else {
        match env.cwd {
            None => run_ends(
                Err(failure(ErrorKind::Io, Reason::NoWorkingDirectory, Seq::<u8>::empty())),
            ),
            Some(cwd) => match cli.unbury {
                Some(named) => {
                    let first = unbury_step(
                        state.graveyard,
                        cwd,
                        named,
                        cli.seance,
                        unbury_fresh(),
                        EventView::Start,
                    );
                    (
                        RunStateView { phase: RunPhase::Unbury, unbury: first.0, ..state },
                        relayed(first.1),
                    )
                },
                None => if cli.seance {
                    let first = seance_step(
                        state.graveyard,
                        cwd,
                        seance_fresh(),
                        EventView::Start,
                    );
                    (
                        RunStateView { phase: RunPhase::Seance, seance: first.0, ..state },
                        relayed(first.1),
                    )
                } else if cli.targets.len() == 0 {
                    (
                        RunStateView { phase: RunPhase::Help, ..state },
                        StepView::Perform(request(Op::PrintHelp, Seq::<u8>::empty())),
                    )
                } else {
                    run_buries(cli, cwd, RunStateView { index: 0, ..state })
                },
            },
        }
    }
}

/// What one invocation with the options `cli` in the surroundings `env` does next,
/// in `state`, when `event` comes in.
pub open spec fn run_step(
    cli: ArgsView,
    env: EnvironmentView,
    state: RunStateView,
    event: EventView,
) -> (RunStateView, StepView<()>) {
    match state.phase {
        RunPhase::Start => match validated(cli) {
            Err(ArgsError::CompletionsNotAlone) => run_ends(
                Err(
                    failure(
                        ErrorKind::InvalidInput,
                        Reason::CompletionsNotAlone,
                        Seq::<u8>::empty(),
                    ),
                ),
            ),
            Err(ArgsError::DecomposeNotAlone) => run_ends(
                Err(
                    failure(
                        ErrorKind::InvalidInput,
                        Reason::DecomposeNotAlone,
                        Seq::<u8>::empty(),
                    ),
                ),
            ),
            Ok(_) => {
                let graveyard = chosen_graveyard(cli.graveyard, env);
                (
                    RunStateView { phase: RunPhase::Graveyard, graveyard, ..run_fresh() },
                    StepView::Perform(request(Op::Exists, graveyard)),
                )
            },
        },
        RunPhase::Graveyard => match event {
            EventView::Answer(exists) => if exists {
                run_ready(cli, env, state)
            } else {
                (
                    RunStateView { phase: RunPhase::Create, ..state },
                    StepView::Perform(request(Op::CreateDirAll, state.graveyard)),
                )
            },
            _ => run_confused(),
        },
        RunPhase::Create => match event {
            EventView::Done => run_ready(cli, env, state),
            EventView::Failed(kind) => run_ends(
                Err(failure(kind, Reason::CreateGraveyard, state.graveyard)),
            ),
            _ => run_confused(),
        },
        RunPhase::Decompose => match event {
            EventView::Answer(yes) => if yes {
                (
                    RunStateView { phase: RunPhase::Erase, ..state },
                    StepView::Perform(request(Op::RemoveDirAll, state.graveyard)),
                )
            } else {
                run_ends(Ok(()))
            },
            EventView::Failed(kind) => run_ends(
                Err(failure(kind, Reason::Prompt, state.graveyard)),
            ),
            _ => run_confused(),
        },
        RunPhase::Erase => match event {
            EventView::Done => run_ends(Ok(())),
            EventView::Failed(kind) => run_ends(
                Err(failure(kind, Reason::Decompose, state.graveyard)),
            ),
            _ => run_confused(),
        },
        RunPhase::Unbury => match (env.cwd, cli.unbury) {
            (Some(cwd), Some(named)) => {
                let inner = unbury_step(
                    state.graveyard,
                    cwd,
                    named,
                    cli.seance,
                    state.unbury,
                    event,
                );
                match inner.1 {
                    StepView::Perform(action) => (
                        RunStateView { unbury: inner.0, ..state },
                        StepView::Perform(action),
                    ),
                    StepView::Finished(Ok(_)) => run_ends(Ok(())),
                    StepView::Finished(Err(f)) => run_ends(Err(f)),
                }
            },
            _ => run_confused(),
        },
        RunPhase::Seance => match env.cwd {
            Some(cwd) => {
                let inner = seance_step(state.graveyard, cwd, state.seance, event);
                match inner.1 {
                    StepView::Perform(action) => (
                        RunStateView { seance: inner.0, ..state },
                        StepView::Perform(action),
                    ),
                    StepView::Finished(Ok(_)) => run_ends(Ok(())),
                    StepView::Finished(Err(f)) => run_ends(Err(f)),
                }
            },
            None => run_confused(),
        },
        RunPhase::Help => match event {
            EventView::Done => run_ends(Ok(())),
            EventView::Failed(kind) => run_ends(
                Err(failure(kind, Reason::Help, Seq::<u8>::empty())),
            ),
            _ => run_confused(),
        },
        RunPhase::Bury => match env.cwd {
            Some(cwd) => if state.index >= cli.targets.len() {
                run_confused()
            } else {
                let inner = bury_step(
                    cli.targets[state.index as int],
                    state.graveyard,
                    cwd,
                    cli.inspect,
                    state.bury,
                    event,
                );
                match inner.1 {
                    StepView::Perform(action) => (
                        RunStateView { bury: inner.0, ..state },
                        StepView::Perform(action),
                    ),
                    StepView::Finished(Ok(_)) => run_buries(
                        cli,
                        cwd,
                        RunStateView { index: state.index + 1, bury: inner.0, ..state },
                    ),
                    StepView::Finished(Err(f)) => run_ends(Err(f)),
                }
            },
            None => run_confused(),
        },
    }
}

impl RunState {
    /// The state of an invocation of which nothing was asked yet.
    pub fn new() -> (state: RunState)
        ensures
            state@ == run_fresh(),
    {
        RunState {
            phase: RunPhase::Start,
            graveyard: Vec::new(),
            index: 0,
            bury: BuryState::new(),
            unbury: UnburyState::new(),
            seance: SeanceState::new(),
        }
    }
}

fn ends(result: Result<(), Failure>) -> (next: (RunState, Step<()>))
    ensures
        (next.0@, next.1@) == run_ends(
            match result {
                Ok(v) => Ok(v),
                Err(f) => Err(f@),
            },
        ),
{
    (RunState::new(), Step::Finished(result))
}

fn confused() -> (next: (RunState, Step<()>))
    ensures
        (next.0@, next.1@) == run_confused(),
{
    ends(Err(Failure::new(ErrorKind::Internal, Reason::Protocol, Vec::new().as_slice())))
}

fn buries(cli: &Args, cwd: &[u8], state: RunState) -> (next: (RunState, Step<()>))
    ensures
        (next.0@, next.1@) == run_buries(cli@, cwd@, state@),
{
    let mut state = state;
    if state.index >= cli.targets.len() {
        return ends(Ok(()));
    }
    let first = bury_target(
        cli.targets[state.index].as_slice(),
        state.graveyard.as_slice(),
        cwd,
        cli.inspect,
        BuryState::new(),
        Event::Start,
    );
    state.phase = RunPhase::Bury;
    state.bury = first.0;
    (state, relay(first.1))
}

fn ready(cli: &Args, env: &Environment, state: RunState) -> (next: (RunState, Step<()>))
    ensures
        (next.0@, next.1@) == run_ready(cli@, env@, state@),
{
    let mut state = state;
    if cli.decompose {
        let action = Action::new(Op::ConfirmDecompose, state.graveyard.as_slice());
        state.phase = RunPhase::Decompose;
        return (state, Step::Perform(action));
    }
    match &env.cwd {
        None => ends(
            Err(
                Failure::new(
                    ErrorKind::Io,
                    Reason::NoWorkingDirectory,
                    Vec::new().as_slice(),
                ),
            ),
        ),
        Some(cwd) => match &cli.unbury {
            Some(named) => {
                let first = unbury(
                    state.graveyard.as_slice(),
                    cwd.as_slice(),
                    named,
                    cli.seance,
                    UnburyState::new(),
                    Event::Start,
                );
                state.phase = RunPhase::Unbury;
                state.unbury = first.0;
                (state, relay(first.1))
            },
            None => {
                if cli.seance {
                    let first = seance(
                        state.graveyard.as_slice(),
                        cwd.as_slice(),
                        SeanceState::new(),
                        Event::Start,
                    );
                    state.phase = RunPhase::Seance;
                    state.seance = first.0;
                    (state, relay(first.1))
                } else if cli.targets.len() == 0 {
                    state.phase = RunPhase::Help;
                    (state, Step::Perform(Action::new(Op::PrintHelp, Vec::new().as_slice())))
                } else {
                    state.index = 0;
                    buries(cli, cwd.as_slice(), state)
                }
            },
        },
    }
}

/// One step of an invocation with the options `cli` in the surroundings `env`.
///
/// Options that exclude each other end the invocation with `InvalidInput` before
/// anything is asked of the host. Otherwise the graveyard is chosen and made if it is
/// missing. With `decompose` the graveyard is erased if the user agrees. With `unbury`
/// graves are emptied; else with `seance` graves are listed; else, without targets,
/// the usage is printed; else the targets are buried in their order, and the first
/// burial that fails ends the invocation with its failure.
pub fn run(cli: &Args, env: &Environment, state: RunState, event: Event) -> (next: (
    RunState,
    Step<()>,
))
    ensures
        (next.0@, next.1@) == run_step(cli@, env@, state@, event@),
{
    let mut state = state;
    match state.phase {
        RunPhase::Start => match validate_args(cli) {
            Err(ArgsError::CompletionsNotAlone) => ends(
                Err(
                    Failure::new(
                        ErrorKind::InvalidInput,
                        Reason::CompletionsNotAlone,
                        Vec::new().as_slice(),
                    ),
                ),
            ),
            Err(ArgsError::DecomposeNotAlone) => ends(
                Err(
                    Failure::new(
                        ErrorKind::InvalidInput,
                        Reason::DecomposeNotAlone,
                        Vec::new().as_slice(),
                    ),
                ),
            ),
            Ok(_) => {
                let graveyard = select_graveyard(&cli.graveyard, env);
                let action = Action::new(Op::Exists, graveyard.as_slice());
                let mut fresh = RunState::new();
                fresh.phase = RunPhase::Graveyard;
                fresh.graveyard = graveyard;
                (fresh, Step::Perform(action))
            },
        },
        RunPhase::Graveyard => match event {
            Event::Answer(exists) => {
                if exists {
                    ready(cli, env, state)
                } else {
                    let action = Action::new(Op::CreateDirAll, state.graveyard.as_slice());
                    state.phase = RunPhase::Create;
                    (state, Step::Perform(action))
                }
            },
            _ => confused(),
        },
        RunPhase::Create => match event {
            Event::Done => ready(cli, env, state),
            Event::Failed(kind) => ends(
                Err(Failure::new(kind, Reason::CreateGraveyard, state.graveyard.as_slice())),
            ),
            _ => confused(),
        },
        RunPhase::Decompose => match event {
            Event::Answer(yes) => {
                if yes {
                    let action = Action::new(Op::RemoveDirAll, state.graveyard.as_slice());
                    state.phase = RunPhase::Erase;
                    (state, Step::Perform(action))
                } else {
                    ends(Ok(()))
                }
            },
            Event::Failed(kind) => ends(
                Err(Failure::new(kind, Reason::Prompt, state.graveyard.as_slice())),
            ),
            _ => confused(),
        },
        RunPhase::Erase => match event {
            Event::Done => ends(Ok(())),
            Event::Failed(kind) => ends(
                Err(Failure::new(kind, Reason::Decompose, state.graveyard.as_slice())),
            ),
            _ => confused(),
        },
        RunPhase::Unbury => match (&env.cwd, &cli.unbury) {
            (Some(cwd), Some(named)) => {
                let mut inner_state = UnburyState::new();
                std::mem::swap(&mut inner_state, &mut state.unbury);
                let inner = unbury(
                    state.graveyard.as_slice(),
                    cwd.as_slice(),
                    named,
                    cli.seance,
                    inner_state,
                    event,
                );
                match inner.1 {
                    Step::Perform(action) => {
                        state.unbury = inner.0;
                        (state, Step::Perform(action))
                    },
                    Step::Finished(Ok(_)) => ends(Ok(())),
                    Step::Finished(Err(f)) => ends(Err(f)),
                }
            },
            _ => confused(),
        },
        RunPhase::Seance => match &env.cwd {
            Some(cwd) => {
                let mut inner_state = SeanceState::new();
                std::mem::swap(&mut inner_state, &mut state.seance);
                let inner = seance(
                    state.graveyard.as_slice(),
                    cwd.as_slice(),
                    inner_state,
                    event,
                );
                match inner.1 {
                    Step::Perform(action) => {
                        state.seance = inner.0;
                        (state, Step::Perform(action))
                    },
                    Step::Finished(Ok(_)) => ends(Ok(())),
                    Step::Finished(Err(f)) => ends(Err(f)),
                }
            },
            None => confused(),
        },
        RunPhase::Help => match event {
            Event::Done => ends(Ok(())),
            Event::Failed(kind) => ends(
                Err(Failure::new(kind, Reason::Help, Vec::new().as_slice())),
            ),
            _ => confused(),
        },
        RunPhase::Bury => match &env.cwd {
            Some(cwd) => {
                if state.index >= cli.targets.len() {
                    return confused();
                }
                let mut inner_state = BuryState::new();
                std::mem::swap(&mut inner_state, &mut state.bury);
                let inner = bury_target(
                    cli.targets[state.index].as_slice(),
                    state.graveyard.as_slice(),
                    cwd.as_slice(),
                    cli.inspect,
                    inner_state,
                    event,
                );
                state.bury = inner.0;
                match inner.1 {
                    Step::Perform(action) => (state, Step::Perform(action)),
                    Step::Finished(Ok(_)) => {
                        state.index = state.index + 1;
                        buries(cli, cwd.as_slice(), state)
                    },
                    Step::Finished(Err(f)) => ends(Err(f)),
                }
            },
            None => confused(),
        },
    }
}

} // verus!
