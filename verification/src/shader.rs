//! Shader programs: how one comes to exist, and what a shape may do with it.
//!
//! Compiling and linking happen in the driver. The library decides what is
//! asked of the driver next and what becomes of the objects that the driver
//! hands back: [`ShaderBuild`] is that decision, one step per answer.

use vstd::prelude::*;
use crate::command::{Command, CommandView};

verus! {

/// A linked shader program, by its name in the driver.
///
/// The only way to obtain one is a [`ShaderBuild`] in which both stages
/// compiled and the program linked. It is a plain name: shapes that share a
/// program each keep a copy, and [`crate::pool::ShaderPool`] counts them.
#[derive(Clone, Copy, Debug, PartialEq, Eq, Structural)]
pub struct Shader {
    id: u32,
}

impl Shader {
    /// The program's name.
    pub closed spec fn program(&self) -> u32 {
        self.id
    }

    /// The program whose name is `program`.
    pub closed spec fn named(program: u32) -> Shader {
        Shader { id: program }
    }

    /// A program is known by its name, and by nothing else.
    pub proof fn lemma_named(program: u32)
        ensures
            Shader::named(program).program() == program,
            forall|shader: Shader| shader.program() == program ==> shader == Shader::named(program),
    {
    }

    pub fn id(&self) -> (name: u32)
        ensures
            name == self.program(),
    {
        self.id
    }

    /// The command that makes this program the active one.
    pub fn use_program<T>(&self) -> (command: Command<T>)
        ensures
            command@ == (CommandView::<T>::UseProgram { program: self.program() }),
    {
        Command::UseProgram { program: self.id }
    }
}

/// Where a program keeps one of its uniforms: the driver's answer to a
/// lookup by name.
///
/// A program that has no uniform of the name answers with a negative slot.
/// That is no error: whoever wanted to store a value there leaves it out.
#[derive(Clone, Copy, Debug, PartialEq, Eq, Structural)]
pub struct UniformLocation {
    pub slot: i32,
}

impl UniformLocation {
    /// The program has the uniform.
    pub open spec fn present(&self) -> bool {
        self.slot >= 0
    }

    pub fn new(slot: i32) -> (location: Self)
        ensures
            location.slot == slot,
    {
        UniformLocation { slot }
    }

    pub fn is_present(&self) -> (present: bool)
        ensures
            present == self.present(),
    {
        self.slot >= 0
    }
}

/// One of the two stages of a program.
#[derive(Clone, Copy, Debug, PartialEq, Eq, Structural)]
pub enum Stage {
    Vertex,
    Fragment,
}

/// Why no program came to exist. `log` is the driver's diagnostic text.
#[derive(Debug)]
pub enum ShaderError {
    /// `stage` did not compile.
    Compile { stage: Stage, log: String },
    /// Both stages compiled, but they did not link.
    Link { log: String },
}

/// What the driver answered.
#[derive(Debug)]
pub enum BuildEvent {
    /// A stage was compiled into `object`; `compiled` is the compile status.
    StageCompiled { object: u32, compiled: bool, log: String },
    /// The two stages were linked into `program`; `linked` is the link status.
    ProgramLinked { program: u32, linked: bool, log: String },
}

/// What the host is to ask of the driver.
#[derive(Clone, Copy, Debug, PartialEq, Eq, Structural)]
pub enum BuildAction {
    /// Compile the source of `stage` and report `StageCompiled`.
    CompileStage { stage: Stage },
    /// Attach both stage objects to a new program, link it and report
    /// `ProgramLinked`.
    LinkProgram { vertex: u32, fragment: u32 },
    /// Release a compiled stage object.
    DeleteStage { object: u32 },
    /// Release a program that did not link.
    DeleteProgram { program: u32 },
}

/// The construction of one program, between two answers of the driver.
#[derive(Debug)]
pub enum ShaderBuild {
    /// The vertex stage is being compiled.
    CompilingVertex,
    /// The vertex stage compiled into `vertex`; the fragment stage is being
    /// compiled.
    CompilingFragment { vertex: u32 },
    /// Both stages compiled; the program is being linked.
    Linking { vertex: u32, fragment: u32 },
    /// The program exists. No stage object is left.
    Ready { shader: Shader },
    /// No program exists, and no object of the attempt is left.
    Failed { error: ShaderError },
}

/// The state after `event`, and what to ask the driver for.
///
/// A failed compile ends the build at once and releases every stage object
/// made so far. After linking, both stage objects are released whether or
/// not the link succeeded, and a program that did not link is released too.
/// An answer that the state did not wait for changes nothing.
pub open spec fn next(state: ShaderBuild, event: BuildEvent) -> (ShaderBuild, Seq<BuildAction>) {
    match (state, event) {
        (ShaderBuild::CompilingVertex, BuildEvent::StageCompiled { object, compiled, log }) => {
            if compiled {
                (
                    ShaderBuild::CompilingFragment { vertex: object },
                    seq![BuildAction::CompileStage { stage: Stage::Fragment }],
                )
            } else {
                (
                    ShaderBuild::Failed { error: ShaderError::Compile { stage: Stage::Vertex, log } },
                    seq![BuildAction::DeleteStage { object }],
                )
            }
        },
        (
            ShaderBuild::CompilingFragment { vertex },
            BuildEvent::StageCompiled { object, compiled, log },
        ) => {
            if compiled {
                (
                    ShaderBuild::Linking { vertex, fragment: object },
                    seq![BuildAction::LinkProgram { vertex, fragment: object }],
                )
            } else {
                (
                    ShaderBuild::Failed {
                        error: ShaderError::Compile { stage: Stage::Fragment, log },
                    },
                    seq![
                        BuildAction::DeleteStage { object: vertex },
                        BuildAction::DeleteStage { object },
                    ],
                )
            }
        },
        (
            ShaderBuild::Linking { vertex, fragment },
            BuildEvent::ProgramLinked { program, linked, log },
        ) => {
            if linked {
                (
                    ShaderBuild::Ready { shader: Shader::named(program) },
                    seq![
                        BuildAction::DeleteStage { object: vertex },
                        BuildAction::DeleteStage { object: fragment },
                    ],
                )
            } else {
                (
                    ShaderBuild::Failed { error: ShaderError::Link { log } },
                    seq![
                        BuildAction::DeleteStage { object: vertex },
                        BuildAction::DeleteStage { object: fragment },
                        BuildAction::DeleteProgram { program },
                    ],
                )
            }
        },
        (state, _) => (state, Seq::empty()),
    }
}

impl ShaderBuild {
    /// The stage objects that exist and are not released yet.
    pub open spec fn held(&self) -> Seq<u32> {
        match *self {
            ShaderBuild::CompilingFragment { vertex } => seq![vertex],
            ShaderBuild::Linking { vertex, fragment } => seq![vertex, fragment],
            _ => Seq::empty(),
        }
    }

    /// The build is over, one way or the other.
    pub open spec fn finished(&self) -> bool {
        *self is Ready || *self is Failed
    }

    /// The event that this state waits for.
    pub open spec fn awaits(&self, event: BuildEvent) -> bool {
        match *self {
            ShaderBuild::CompilingVertex | ShaderBuild::CompilingFragment { .. } => event
                is StageCompiled,
            ShaderBuild::Linking { .. } => event is ProgramLinked,
            _ => false,
        }
    }

    /// Begins a build: nothing exists yet, and the vertex stage is to be
    /// compiled first.
    pub fn new() -> (start: (ShaderBuild, Vec<BuildAction>))
        ensures
            start.0 is CompilingVertex,
            start.1@ == seq![BuildAction::CompileStage { stage: Stage::Vertex }],
    {
        let mut actions: Vec<BuildAction> = Vec::new();
        actions.push(BuildAction::CompileStage { stage: Stage::Vertex });
        (ShaderBuild::CompilingVertex, actions)
    }

    /// Takes the driver's answer and says what follows.
    pub fn step(self, event: BuildEvent) -> (after: (ShaderBuild, Vec<BuildAction>))
        ensures
            (after.0, after.1@) == next(self, event),
    {
        let mut actions: Vec<BuildAction> = Vec::new();
        match (self, event) {
            (ShaderBuild::CompilingVertex, BuildEvent::StageCompiled { object, compiled, log }) => {
                if compiled {
                    actions.push(BuildAction::CompileStage { stage: Stage::Fragment });
                    (ShaderBuild::CompilingFragment { vertex: object }, actions)
                } else {
                    actions.push(BuildAction::DeleteStage { object });
                    (
                        ShaderBuild::Failed {
                            error: ShaderError::Compile { stage: Stage::Vertex, log },
                        },
                        actions,
                    )
                }
            },
            (
                ShaderBuild::CompilingFragment { vertex },
                BuildEvent::StageCompiled { object, compiled, log },
            ) => {
                if compiled {
                    actions.push(BuildAction::LinkProgram { vertex, fragment: object });
                    (ShaderBuild::Linking { vertex, fragment: object }, actions)
                } else {
                    actions.push(BuildAction::DeleteStage { object: vertex });
                    actions.push(BuildAction::DeleteStage { object });
                    (
                        ShaderBuild::Failed {
                            error: ShaderError::Compile { stage: Stage::Fragment, log },
                        },
                        actions,
                    )
                }
            },
            (
                ShaderBuild::Linking { vertex, fragment },
                BuildEvent::ProgramLinked { program, linked, log },
            ) => {
                actions.push(BuildAction::DeleteStage { object: vertex });
                actions.push(BuildAction::DeleteStage { object: fragment });
                if linked {
                    (ShaderBuild::Ready { shader: Shader { id: program } }, actions)
                } else {
                    actions.push(BuildAction::DeleteProgram { program });
                    (ShaderBuild::Failed { error: ShaderError::Link { log } }, actions)
                }
            },
            (state, _) => (state, actions),
        }
    }

    /// The result of a finished build; `None` while the driver still owes an
    /// answer.
    pub fn finish(self) -> (outcome: Option<Result<Shader, ShaderError>>)
        ensures
            outcome is Some <==> self.finished(),
            self matches ShaderBuild::Ready { shader } ==> outcome == Some(
                Ok::<Shader, ShaderError>(shader),
            ),
            self matches ShaderBuild::Failed { error } ==> outcome == Some(
                Err::<Shader, ShaderError>(error),
            ),
    {
        match self {
            ShaderBuild::Ready { shader } => Some(Ok(shader)),
            ShaderBuild::Failed { error } => Some(Err(error)),
            _ => None,
        }
    }
}

/// The stage objects that `actions` release, in order.
pub open spec fn released_stages(actions: Seq<BuildAction>) -> Seq<u32>
    decreases actions.len(),
{
    if actions.len() == 0 {
        Seq::empty()
    } else {
        let rest = released_stages(actions.drop_last());
        match actions.last() {
            BuildAction::DeleteStage { object } => rest.push(object),
            _ => rest,
        }
    }
}

/// The stage object that `event` brings into existence.
pub open spec fn received_stage(event: BuildEvent) -> Seq<u32> {
    match event {
        BuildEvent::StageCompiled { object, .. } => seq![object],
        _ => Seq::empty(),
    }
}

/// No stage object is lost or released twice: after an awaited answer, the
/// objects released by the step followed by those still held are exactly
/// those held before followed by the one that the answer brought.
pub proof fn lemma_stage_objects_conserved(state: ShaderBuild, event: BuildEvent)
    requires
        state.awaits(event),
    ensures
        released_stages(next(state, event).1) + next(state, event).0.held() == state.held()
            + received_stage(event),
{
    let actions = next(state, event).1;
    reveal_with_fuel(released_stages, 4);
    if actions.len() >= 1 {
        assert(actions.drop_last().len() == actions.len() - 1);
    }
    if actions.len() >= 2 {
        assert(actions.drop_last().drop_last().len() == actions.len() - 2);
    }
    if actions.len() >= 3 {
        assert(actions.drop_last().drop_last().drop_last().len() == actions.len() - 3);
    }
    assert(released_stages(actions) + next(state, event).0.held() =~= state.held()
        + received_stage(event));
}

/// A finished build stays as it is and asks for nothing more, whatever
/// arrives; and it holds no stage object.
pub proof fn lemma_finished_is_final(state: ShaderBuild, event: BuildEvent)
    requires
        state.finished(),
    ensures
        next(state, event) == (state, Seq::<BuildAction>::empty()),
        state.held() == Seq::<u32>::empty(),
{
}

/// A program exists at the end of a step only if that step took the answer
/// that a link succeeded; a compile that failed names its own stage.
pub proof fn lemma_outcome_causes(state: ShaderBuild, event: BuildEvent)
    requires
        !state.finished(),
    ensures
        next(state, event).0 is Ready <==> state is Linking && (event matches BuildEvent::ProgramLinked {
            linked,
            ..
        } && linked),
        next(state, event).0 matches ShaderBuild::Failed { error: ShaderError::Compile { stage, .. } }
            ==> (stage == Stage::Vertex <==> state is CompilingVertex) && (stage == Stage::Fragment
            <==> state is CompilingFragment) && (event matches BuildEvent::StageCompiled {
            compiled,
            ..
        } && !compiled),
        next(state, event).0 matches ShaderBuild::Failed { error: ShaderError::Link { .. } }
            ==> state is Linking && (event matches BuildEvent::ProgramLinked { linked, .. }
            && !linked),
{
}

/// The state after a list of answers, taken in order, and everything that
/// was asked of the driver on the way.
pub open spec fn next_all(state: ShaderBuild, events: Seq<BuildEvent>) -> (
    ShaderBuild,
    Seq<BuildAction>,
)
    decreases events.len(),
{
    if events.len() == 0 {
        (state, Seq::empty())
    } else {
        let before = next_all(state, events.drop_last());
        let last = next(before.0, events.last());
        (last.0, before.1 + last.1)
    }
}

/// Each of `events` arrives when the build waits for it.
pub open spec fn in_turn(state: ShaderBuild, events: Seq<BuildEvent>) -> bool
    decreases events.len(),
{
    events.len() == 0 || (in_turn(state, events.drop_last()) && next_all(
        state,
        events.drop_last(),
    ).0.awaits(events.last()))
}

/// The stage objects that `events` bring into existence, in order.
pub open spec fn received_stages(events: Seq<BuildEvent>) -> Seq<u32>
    decreases events.len(),
{
    if events.len() == 0 {
        Seq::empty()
    } else {
        received_stages(events.drop_last()) + received_stage(events.last())
    }
}

proof fn lemma_released_stages_add(a: Seq<BuildAction>, b: Seq<BuildAction>)
    ensures
        released_stages(a + b) == released_stages(a) + released_stages(b),
    decreases b.len(),
{
    if b.len() == 0 {
        assert(a + b =~= a);
    } else {
        assert((a + b).drop_last() =~= a + b.drop_last());
        lemma_released_stages_add(a, b.drop_last());
    }
}

/// Over a whole build no stage object is lost or released twice: at any
/// point, the objects released so far followed by those still held are
/// those held at the start followed by those that the driver has made since.
pub proof fn lemma_build_conserves_stages(state: ShaderBuild, events: Seq<BuildEvent>)
    requires
        in_turn(state, events),
    ensures
        released_stages(next_all(state, events).1) + next_all(state, events).0.held()
            == state.held() + received_stages(events),
    decreases events.len(),
{
    if events.len() > 0 {
        let before = next_all(state, events.drop_last());
        let last = next(before.0, events.last());
        lemma_build_conserves_stages(state, events.drop_last());
        lemma_stage_objects_conserved(before.0, events.last());
        lemma_released_stages_add(before.1, last.1);
        assert(released_stages(before.1) + released_stages(last.1) + last.0.held()
            =~= released_stages(before.1) + (released_stages(last.1) + last.0.held()));
        assert(released_stages(before.1) + (before.0.held() + received_stage(events.last()))
            =~= released_stages(before.1) + before.0.held() + received_stage(events.last()));
        assert(state.held() + received_stages(events.drop_last()) + received_stage(events.last())
            =~= state.held() + (received_stages(events.drop_last()) + received_stage(
            events.last(),
        )));
    } else {
        assert(released_stages(Seq::<BuildAction>::empty()) + state.held() =~= state.held()
            + received_stages(events));
    }
}

/// When a build that began with nothing is over, with or without a
/// program, every stage object that the driver made for it has been
/// released, once, and no other.
pub proof fn lemma_finished_build_released_its_stages(events: Seq<BuildEvent>)
    requires
        in_turn(ShaderBuild::CompilingVertex, events),
        next_all(ShaderBuild::CompilingVertex, events).0.finished(),
    ensures
        released_stages(next_all(ShaderBuild::CompilingVertex, events).1) == received_stages(
            events,
        ),
{
    let end = next_all(ShaderBuild::CompilingVertex, events);
    lemma_build_conserves_stages(ShaderBuild::CompilingVertex, events);
    assert(released_stages(end.1) + end.0.held() =~= released_stages(end.1));
    assert(ShaderBuild::CompilingVertex.held() + received_stages(events) =~= received_stages(
        events,
    ));
}

} // verus!
