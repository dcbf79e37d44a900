//! The scene and its main loop.
//!
//! An [`Application`] owns the programs, the shapes and the animated cube.
//! It decides what a frame consists of and what is released at the end; the
//! host performs the commands and reports whether the window wants to close.

use vstd::prelude::*;
use crate::any_shape::AnyShape;
use crate::buffers::{release_sequence, upload_sequence};
use crate::command::{append_commands, lemma_views_push, views, Command, CommandView, Matrix4};
use crate::cube::Cube;
use crate::draw::Shape;
use crate::pool::{acquired, all_owned, count_in, last_owner, released, ShaderPool};
use crate::scene::{
    distinct_handles, draws, frame_commands, handles_free, has_depth, held, lemma_distinct_insert,
    lemma_uses_insert, lemma_uses_none, member_of, members, orphaned, teardown_members,
    teardown_programs, used, uses, Member,
};
use crate::shader::Shader;

verus! {

/// Why a scene did not take a shape.
#[derive(Clone, Copy, Debug, PartialEq, Eq, Structural)]
pub enum SceneError {
    /// The shape's program is not alive in this scene.
    UnknownProgram,
    /// Another shape of the scene has the same vertex array or the same
    /// vertex buffer.
    HandleInUse,
    /// The program has as many owners as can be counted.
    TooManyOwners,
    /// The scene has its animated cube already.
    CubePresent,
}

/// The animated cube's next position: the angle, and the rotation matrix
/// that belongs to it.
#[derive(Clone, Copy, Debug, PartialEq)]
pub struct Turn<T> {
    pub angle: T,
    pub transform: Matrix4<T>,
}

/// The reason, if there is one, for which a scene with these owners and
/// members does not take `member`.
pub open spec fn refusal(owners: Map<u32, usize>, all: Seq<Member>, member: Member) -> Option<
    SceneError,
> {
    if !owners.contains_key(member.program) {
        Some(SceneError::UnknownProgram)
    } else if !handles_free(all, member.array, member.buffer) {
        Some(SceneError::HandleInUse)
    } else if owners[member.program] == usize::MAX {
        Some(SceneError::TooManyOwners)
    } else {
        None
    }
}

/// The cube after the frame's animation step.
pub open spec fn animate<T: Copy>(cube: Option<Cube<T>>, turn: Option<Turn<T>>) -> Option<Cube<T>> {
    match (cube, turn) {
        (Some(c), Some(t)) => Some(c.turned(t.angle, t.transform)),
        _ => cube,
    }
}

/// The programs, the shapes in the order in which they are drawn, and at
/// most one animated cube, which is drawn last.
pub struct Application<T> {
    pool: ShaderPool,
    programs: Vec<Shader>,
    shapes: Vec<AnyShape<T>>,
    cube: Option<Cube<T>>,
}

impl<T: Copy> Application<T> {
    /// The shapes, in the order in which they were added.
    pub closed spec fn shapes(&self) -> Seq<AnyShape<T>> {
        self.shapes@
    }

    /// The animated cube.
    pub closed spec fn cube(&self) -> Option<Cube<T>> {
        self.cube
    }

    /// The programs that the scene holds itself, in the order in which it
    /// took them.
    pub closed spec fn programs(&self) -> Seq<Shader> {
        self.programs@
    }

    /// The programs that are alive, each with the number of its owners.
    pub closed spec fn owners(&self) -> Map<u32, usize> {
        self.pool@
    }

    /// The shapes and the cube, as the bookkeeping sees them.
    pub open spec fn members(&self) -> Seq<Member> {
        members(self.shapes(), self.cube())
    }

    /// What holds of every scene between two calls: a program is alive
    /// exactly as long as it has an owner; its owners are the scene, if it
    /// holds the program, and the members that it draws; the scene holds no
    /// program twice; and no two members share a GPU object.
    pub open spec fn wf(&self) -> bool {
        &&& all_owned(self.owners())
        &&& self.programs().no_duplicates()
        &&& forall|p: u32| #[trigger]
            count_in(self.owners(), p) == held(self.programs(), p) + uses(self.members(), p)
        &&& distinct_handles(self.members())
    }

    /// The scene has nothing in it and nothing alive.
    pub open spec fn is_empty(&self) -> bool {
        &&& self.shapes() == Seq::<AnyShape<T>>::empty()
        &&& self.cube() is None
        &&& self.programs() == Seq::<Shader>::empty()
        &&& self.owners() == Map::<u32, usize>::empty()
    }

    /// An empty scene.
    pub fn new() -> (app: Self)
        ensures
            app.wf(),
            app.is_empty(),
    {
        let app = Application {
            pool: ShaderPool::new(),
            programs: Vec::new(),
            shapes: Vec::new(),
            cube: None,
        };
        proof {
            assert(app.members() =~= Seq::<Member>::empty());
            assert(app.shapes() =~= Seq::<AnyShape<T>>::empty());
        }
        app
    }

    /// Takes a linked program in, with the scene as its owner. A program
    /// that is alive in the scene already is refused.
    pub fn add_program(&mut self, shader: Shader) -> (taken: bool)
        requires
            old(self).wf(),
        ensures
            final(self).wf(),
            taken == !old(self).owners().contains_key(shader.program()),
            final(self).shapes() == old(self).shapes(),
            final(self).cube() == old(self).cube(),
            taken ==> final(self).programs() == old(self).programs().push(shader)
                && final(self).owners() == old(self).owners().insert(shader.program(), 1),
            !taken ==> final(self).programs() == old(self).programs() && final(self).owners()
                == old(self).owners(),
    {
        let taken = self.pool.register(shader);
        if taken {
            self.programs.push(shader);
            proof {
                let before = old(self).programs();
                let program = shader.program();
                Shader::lemma_named(program);
                assert(count_in(old(self).owners(), program) == 0);
                assert(!before.contains(shader));
                assert(uses(self.members(), program) == 0);
                assert(self.programs()[before.len() as int] == shader);
                assert forall|p: u32| #[trigger]
                    count_in(self.owners(), p) == held(self.programs(), p) + uses(
                        self.members(),
                        p,
                    ) by {
                    Shader::lemma_named(p);
                    assert(count_in(old(self).owners(), p) == held(before, p) + uses(
                        old(self).members(),
                        p,
                    ));
                    if p != program {
                        if before.contains(Shader::named(p)) {
                            let i = choose|i: int|
                                0 <= i < before.len() && before[i] == Shader::named(p);
                            assert(self.programs()[i] == Shader::named(p));
                        }
                    }
                }
            }
        }
        taken
    }

    /// Ends the scene's own hold on `shader`. The program is released at
    /// once if no member is drawn by it, and with the last such member if
    /// not. Nothing happens if the scene does not hold the program.
    pub fn release_program(&mut self, shader: Shader) -> (commands: Vec<Command<T>>)
        requires
            old(self).wf(),
        ensures
            final(self).wf(),
            final(self).shapes() == old(self).shapes(),
            final(self).cube() == old(self).cube(),
            !old(self).programs().contains(shader) ==> final(self).programs() == old(self).programs() && final(self).owners() == old(self).owners() && commands@.len() == 0,
            old(self).programs().contains(shader) ==> final(self).programs() == old(self).programs().remove(old(self).programs().index_of(shader)) && final(self).owners()
                == released(old(self).owners(), shader.program()) && views(commands@) == (if used(
                old(self).members(),
                shader.program(),
            ) {
                Seq::<CommandView<T>>::empty()
            } else {
                seq![CommandView::<T>::DeleteProgram { program: shader.program() }]
            }),
    {
        let mut commands: Vec<Command<T>> = Vec::new();
        let mut i: usize = 0;
        let mut found = false;
        while i < self.programs.len() && !found
            invariant
                i <= self.programs@.len(),
                *self == *old(self),
                forall|k: int| 0 <= k < i ==> self.programs@[k] != shader,
                found ==> i < self.programs@.len() && self.programs@[i as int] == shader,
            decreases self.programs@.len() - i + if found { 0int } else { 1int },
        {
            proof {
                Shader::lemma_named(shader.program());
            }
            if self.programs[i].id() == shader.id() {
                found = true;
            } else {
                i += 1;
            }
        }
        if found {
            let ghost before = self.programs@;
            let ghost program = shader.program();
            proof {
                Shader::lemma_named(program);
                assert(before[i as int] == shader);
                assert(before.contains(shader));
                assert(before.index_of(shader) == i) by {
                    let j = before.index_of(shader);
                    assert(0 <= j < before.len() && before[j] == shader);
                }
                assert(held(before, program) == 1);
                assert(count_in(self.owners(), program) == 1 + uses(self.members(), program));
                lemma_uses_none(self.members(), program);
            }
            self.programs.remove(i);
            let released: Option<Command<T>> = self.pool.release(shader);
            proof {
                let after = self.programs@;
                assert(after.no_duplicates()) by {
                    assert forall|a: int, b: int|
                        0 <= a < after.len() && 0 <= b < after.len() && a != b implies after[a]
                        != after[b] by {
                        let oa = if a < i {
                            a
                        } else {
                            a + 1
                        };
                        let ob = if b < i {
                            b
                        } else {
                            b + 1
                        };
                        assert(after[a] == before[oa] && after[b] == before[ob]);
                    }
                }
                assert(!after.contains(shader)) by {
                    if after.contains(shader) {
                        let a = choose|a: int| 0 <= a < after.len() && after[a] == shader;
                        let oa = if a < i {
                            a
                        } else {
                            a + 1
                        };
                        assert(before[oa] == shader);
                    }
                }
                assert forall|p: u32| #[trigger]
                    count_in(self.owners(), p) == held(after, p) + uses(self.members(), p) by {
                    Shader::lemma_named(p);
                    assert(count_in(old(self).owners(), p) == held(before, p) + uses(
                        old(self).members(),
                        p,
                    ));
                    if p != program {
                        if before.contains(Shader::named(p)) {
                            let b = choose|b: int|
                                0 <= b < before.len() && before[b] == Shader::named(p);
                            let a = if b < i {
                                b
                            } else {
                                b - 1
                            };
                            assert(after[a] == Shader::named(p));
                        }
                        if after.contains(Shader::named(p)) {
                            let a = choose|a: int|
                                0 <= a < after.len() && after[a] == Shader::named(p);
                            let b = if a < i {
                                a
                            } else {
                                a + 1
                            };
                            assert(before[b] == Shader::named(p));
                        }
                    }
                }
            }
            match released {
                Some(command) => {
                    commands.push(command);
                    proof {
                        assert(views(commands@) =~= seq![
                            CommandView::<T>::DeleteProgram { program },
                        ]);
                    }
                },
                None => {
                    proof {
                        assert(views(commands@) =~= Seq::<CommandView<T>>::empty());
                    }
                },
            }
        } else {
            proof {
                if self.programs@.contains(shader) {
                    let k = choose|k: int| 0 <= k < self.programs@.len() && self.programs@[k] == shader;
                    assert(false);
                }
            }
        }
        commands
    }

    /// Whether some member has the vertex array `array` or the vertex
    /// buffer `buffer`.
    fn handles_in_use(&self, array: u32, buffer: u32) -> (in_use: bool)
        ensures
            in_use == !handles_free(self.members(), array, buffer),
    {
        let ghost all = self.members();
        let mut i: usize = 0;
        while i < self.shapes.len()
            invariant
                i <= self.shapes@.len(),
                all == self.members(),
                forall|k: int| 0 <= k < i ==> (#[trigger] all[k]).array != array && all[k].buffer != buffer,
            decreases self.shapes@.len() - i,
        {
            let handles = self.shapes[i].handles();
            if handles.vertex_array() == array || handles.vertex_buffer() == buffer {
                proof {
                    assert(all[i as int] == member_of(self.shapes@[i as int]));
                }
                return true;
            }
            proof {
                assert(all[i as int] == member_of(self.shapes@[i as int]));
            }
            i += 1;
        }
        match &self.cube {
            Some(cube) => {
                let handles = cube.handles();
                proof {
                    assert(all[self.shapes@.len() as int] == member_of(*cube));
                }
                handles.vertex_array() == array || handles.vertex_buffer() == buffer
            },
            None => false,
        }
    }

    /// Takes a shape in, behind those that are there, and returns the
    /// commands that upload its geometry. The shape becomes an owner of its
    /// program. A shape that is refused comes back with the reason, and the
    /// scene stays as it was.
    pub fn add_shape(&mut self, shape: AnyShape<T>) -> (result: Result<
        Vec<Command<T>>,
        (SceneError, AnyShape<T>),
    >)
        requires
            old(self).wf(),
        ensures
            final(self).wf(),
            final(self).programs() == old(self).programs(),
            final(self).cube() == old(self).cube(),
            match refusal(old(self).owners(), old(self).members(), member_of(shape)) {
                Some(reason) => result == Err::<Vec<Command<T>>, (SceneError, AnyShape<T>)>(
                    (reason, shape),
                ) && final(self).shapes() == old(self).shapes() && final(self).owners() == old(self).owners(),
                None => final(self).shapes() == old(self).shapes().push(shape) && final(self).owners() == acquired(old(self).owners(), shape.shader().program()) && (
                result matches Ok(commands) && views(commands@) == upload_sequence(
                    shape.buffers().array(),
                    shape.buffers().buffer(),
                    shape.payload(),
                    shape.layout(),
                )),
            },
    {
        let shader = shape.program();
        let array = shape.handles().vertex_array();
        let buffer = shape.handles().vertex_buffer();
        if !self.pool.contains(shader) {
            return Err((SceneError::UnknownProgram, shape));
        }
        if self.handles_in_use(array, buffer) {
            return Err((SceneError::HandleInUse, shape));
        }
        if !self.pool.acquire(shader) {
            return Err((SceneError::TooManyOwners, shape));
        }
        let commands = shape.init();
        let ghost at = self.shapes@.len() as int;
        self.shapes.push(shape);
        proof {
            let member = member_of(shape);
            let before = old(self).members();
            assert(self.members() =~= before.insert(at, member));
            lemma_distinct_insert(before, at, member);
            assert forall|p: u32| #[trigger]
                count_in(self.owners(), p) == held(self.programs(), p) + uses(self.members(), p) by {
                lemma_uses_insert(before, at, member, p);
                assert(count_in(old(self).owners(), p) == held(old(self).programs(), p) + uses(
                    before,
                    p,
                ));
            }
        }
        Ok(commands)
    }

    /// Makes `cube` the animated cube of the scene and returns the commands
    /// that upload its geometry. The cube becomes an owner of its program.
    /// A scene has one animated cube at most: a second one is refused, as is
    /// one that a shape could be refused for.
    pub fn set_cube(&mut self, cube: Cube<T>) -> (result: Result<
        Vec<Command<T>>,
        (SceneError, Cube<T>),
    >)
        requires
            old(self).wf(),
        ensures
            final(self).wf(),
            final(self).programs() == old(self).programs(),
            final(self).shapes() == old(self).shapes(),
            match (if old(self).cube() is Some {
                Some(SceneError::CubePresent)
            } else {
                refusal(old(self).owners(), old(self).members(), member_of(cube))
            }) {
                Some(reason) => result == Err::<Vec<Command<T>>, (SceneError, Cube<T>)>(
                    (reason, cube),
                ) && final(self).cube() == old(self).cube() && final(self).owners() == old(self).owners(),
                None => final(self).cube() == Some(cube) && final(self).owners() == acquired(
                    old(self).owners(),
                    cube.shader().program(),
                ) && (result matches Ok(commands) && views(commands@) == upload_sequence(
                    cube.buffers().array(),
                    cube.buffers().buffer(),
                    cube.payload(),
                    cube.layout(),
                )),
            },
    {
        if self.cube.is_some() {
            return Err((SceneError::CubePresent, cube));
        }
        let shader = cube.program();
        let array = cube.handles().vertex_array();
        let buffer = cube.handles().vertex_buffer();
        if !self.pool.contains(shader) {
            return Err((SceneError::UnknownProgram, cube));
        }
        if self.handles_in_use(array, buffer) {
            return Err((SceneError::HandleInUse, cube));
        }
        if !self.pool.acquire(shader) {
            return Err((SceneError::TooManyOwners, cube));
        }
        let commands = cube.init();
        let ghost at = self.shapes@.len() as int;
        self.cube = Some(cube);
        proof {
            let member = member_of(cube);
            let before = old(self).members();
            assert(self.members() =~= before.insert(at, member));
            lemma_distinct_insert(before, at, member);
            assert forall|p: u32| #[trigger]
                count_in(self.owners(), p) == held(self.programs(), p) + uses(self.members(), p) by {
                lemma_uses_insert(before, at, member, p);
                assert(count_in(old(self).owners(), p) == held(old(self).programs(), p) + uses(
                    before,
                    p,
                ));
            }
        }
        Ok(commands)
    }

    /// The angle of the animated cube, if the scene has one.
    pub fn cube_rotation(&self) -> (angle: Option<T>)
        ensures
            angle == match self.cube() {
                Some(cube) => Some(cube.angle()),
                None => None,
            },
    {
        match &self.cube {
            Some(cube) => Some(cube.rotation()),
            None => None,
        }
    }

    /// How many shapes the scene has, the animated cube not counted.
    pub fn shape_count(&self) -> (count: usize)
        ensures
            count == self.shapes().len(),
    {
        self.shapes.len()
    }

    /// Whether anything in the scene needs the depth test.
    fn needs_depth(&self) -> (depth: bool)
        ensures
            depth == has_depth(self.shapes(), self.cube()),
    {
        if self.cube.is_some() {
            return true;
        }
        let mut i: usize = 0;
        while i < self.shapes.len()
            invariant
                i <= self.shapes@.len(),
                forall|k: int| 0 <= k < i ==> !(#[trigger] self.shapes@[k] is Cube),
            decreases self.shapes@.len() - i,
        {
            match &self.shapes[i] {
                AnyShape::Cube(_) => {
                    return true;
                },
                _ => {},
            }
            i += 1;
        }
        false
    }

    /// One frame. If `turn` is given and the scene has an animated cube, the
    /// cube is turned first. The commands are those of [`frame_commands`]
    /// for the scene as it then is.
    pub fn frame(&mut self, turn: Option<Turn<T>>) -> (commands: Vec<Command<T>>)
        requires
            old(self).wf(),
        ensures
            final(self).wf(),
            final(self).shapes() == old(self).shapes(),
            final(self).programs() == old(self).programs(),
            final(self).owners() == old(self).owners(),
            final(self).cube() == animate(old(self).cube(), turn),
            views(commands@) == frame_commands(final(self).shapes(), final(self).cube()),
    {
        match turn {
            Some(turn) => {
                match self.cube.take() {
                    Some(cube) => {
                        let mut cube = cube;
                        proof {
                            cube.lemma_turned(turn.angle, turn.transform);
                        }
                        cube.set_rotation(turn.angle, turn.transform);
                        self.cube = Some(cube);
                        proof {
                            assert(self.members() =~= old(self).members());
                        }
                    },
                    None => {},
                }
            },
            None => {},
        }
        let mut commands: Vec<Command<T>> = Vec::new();
        commands.push(Command::PollEvents);
        commands.push(Command::DepthTest { enabled: self.needs_depth() });
        commands.push(Command::Clear { color: true, depth: true });
        let ghost head = views(commands@);
        proof {
            assert(head =~= seq![
                CommandView::PollEvents,
                CommandView::DepthTest { enabled: has_depth(self.shapes(), self.cube()) },
                CommandView::Clear { color: true, depth: true },
            ]);
            assert(self.shapes@.take(0) =~= Seq::<AnyShape<T>>::empty());
        }
        let mut i: usize = 0;
        while i < self.shapes.len()
            invariant
                i <= self.shapes@.len(),
                views(commands@) == head + draws(self.shapes@.take(i as int)),
            decreases self.shapes@.len() - i,
        {
            let ghost done = views(commands@);
            let drawn = self.shapes[i].draw();
            append_commands(&mut commands, drawn);
            proof {
                let now = self.shapes@.take(i + 1);
                assert(now.drop_last() =~= self.shapes@.take(i as int));
                assert(now.last() == self.shapes@[i as int]);
                assert(done + views(drawn@) =~= head + draws(now));
            }
            i += 1;
        }
        proof {
            assert(self.shapes@.take(i as int) =~= self.shapes@);
        }
        let ghost body = views(commands@);
        match &self.cube {
            Some(cube) => {
                let drawn = cube.draw();
                append_commands(&mut commands, drawn);
            },
            None => {
                proof {
                    assert(body + Seq::<CommandView<T>>::empty() =~= body);
                }
            },
        }
        let ghost most = commands@;
        commands.push(Command::SwapBuffers);
        proof {
            lemma_views_push(most, Command::SwapBuffers);
        }
        commands
    }

    /// Adds to `commands` what releases one member: the commands that give
    /// its GPU objects up, and its program if the member was the last owner.
    fn retire(
        pool: &mut ShaderPool,
        commands: &mut Vec<Command<T>>,
        given_up: Vec<Command<T>>,
        shader: Shader,
    )
        ensures
            final(pool)@ == released(old(pool)@, shader.program()),
            old(pool).wf() ==> final(pool).wf(),
            views(final(commands)@) == views(old(commands)@) + views(given_up@) + (if last_owner(
                old(pool)@,
                shader.program(),
            ) {
                seq![CommandView::<T>::DeleteProgram { program: shader.program() }]
            } else {
                Seq::<CommandView<T>>::empty()
            }),
    {
        append_commands(commands, given_up);
        let ghost so_far = commands@;
        let orphan: Option<Command<T>> = pool.release(shader);
        match orphan {
            Some(command) => {
                commands.push(command);
                proof {
                    lemma_views_push(so_far, command);
                    assert(views(commands@) =~= views(so_far) + seq![
                        CommandView::<T>::DeleteProgram { program: shader.program() },
                    ]);
                }
            },
            None => {
                proof {
                    assert(views(so_far) + Seq::<CommandView<T>>::empty() =~= views(so_far));
                }
            },
        }
    }

    /// What the release of the first of `all` adds belongs to the teardown of
    /// `all`, and what is left to do is the teardown of the rest.
    proof fn lemma_retired(
        kept: Seq<Shader>,
        all: Seq<Member>,
        pool: Map<u32, usize>,
        done: Seq<CommandView<T>>,
        given_up: Seq<CommandView<T>>,
    )
        requires
            all.len() > 0,
            given_up == release_sequence::<T>(all[0].array, all[0].buffer),
            forall|p: u32| #[trigger] count_in(pool, p) == held(kept, p) + uses(all, p),
        ensures
            last_owner(pool, all[0].program) <==> orphaned(kept, all.drop_first(), all[0].program),
            forall|p: u32| #[trigger]
                count_in(released(pool, all[0].program), p) == held(kept, p) + uses(
                    all.drop_first(),
                    p,
                ),
            done + given_up + (if last_owner(pool, all[0].program) {
                seq![CommandView::<T>::DeleteProgram { program: all[0].program }]
            } else {
                Seq::<CommandView<T>>::empty()
            }) + teardown_members::<T>(kept, all.drop_first()) == done + teardown_members::<T>(
                kept,
                all,
            ),
    {
        let program = all[0].program;
        let rest = all.drop_first();
        lemma_uses_none(rest, program);
        assert(count_in(pool, program) == held(kept, program) + uses(all, program));
        assert forall|p: u32| #[trigger]
            count_in(released(pool, program), p) == held(kept, p) + uses(rest, p) by {
            assert(count_in(pool, p) == held(kept, p) + uses(all, p));
        }
        let orphan = if last_owner(pool, program) {
            seq![CommandView::<T>::DeleteProgram { program }]
        } else {
            Seq::<CommandView<T>>::empty()
        };
        assert(done + given_up + orphan + teardown_members::<T>(kept, rest) =~= done + (given_up
            + orphan + teardown_members::<T>(kept, rest)));
    }

    /// Ends the scene. The shapes are released in the order in which they
    /// were added, then the animated cube, then the programs that the scene
    /// holds itself; a program that the scene no longer holds is released
    /// with the last member that it drew. Afterwards the scene is empty, and
    /// no program is alive.
    pub fn cleanup(&mut self) -> (commands: Vec<Command<T>>)
        requires
            old(self).wf(),
        ensures
            final(self).wf(),
            final(self).is_empty(),
            views(commands@) == teardown_members::<T>(old(self).programs(), old(self).members())
                + teardown_programs::<T>(old(self).programs()),
    {
        let ghost kept = self.programs@;
        let ghost total = teardown_members::<T>(kept, self.members());
        let mut commands: Vec<Command<T>> = Vec::new();
        proof {
            assert(views(commands@) =~= Seq::<CommandView<T>>::empty());
            assert(views(commands@) + total =~= total);
        }
        while self.shapes.len() > 0
            invariant
                self.programs@ == kept,
                kept.no_duplicates(),
                self.cube == old(self).cube,
                all_owned(self.pool@),
                forall|p: u32| #[trigger]
                    count_in(self.pool@, p) == held(kept, p) + uses(
                        members(self.shapes@, self.cube),
                        p,
                    ),
                views(commands@) + teardown_members::<T>(kept, members(self.shapes@, self.cube))
                    == total,
            decreases self.shapes@.len(),
        {
            let ghost all = members(self.shapes@, self.cube);
            let ghost done = views(commands@);
            let ghost pool = self.pool@;
            let shape = self.shapes.remove(0);
            let shader = shape.program();
            proof {
                assert(all[0] == member_of(shape));
                assert(members(self.shapes@, self.cube) =~= all.drop_first());
            }
            let given_up = shape.release();
            proof {
                Self::lemma_retired(kept, all, pool, done, views(given_up@));
            }
            Self::retire(&mut self.pool, &mut commands, given_up, shader);
        }
        match self.cube.take() {
            Some(cube) => {
                let ghost all = members(self.shapes@, Some(cube));
                let ghost done = views(commands@);
                let ghost pool = self.pool@;
                let shader = cube.program();
                proof {
                    assert(all[0] == member_of(cube));
                    assert(members(self.shapes@, self.cube) =~= all.drop_first());
                }
                let given_up = cube.release();
                proof {
                    Self::lemma_retired(kept, all, pool, done, views(given_up@));
                }
                Self::retire(&mut self.pool, &mut commands, given_up, shader);
            },
            None => {},
        }
        proof {
            let left = members(self.shapes@, self.cube);
            assert(left =~= Seq::<Member>::empty());
            assert(kept.skip(0) =~= kept);
            assert forall|p: u32| #[trigger]
                count_in(self.pool@, p) == held(kept.skip(0), p) by {
                assert(count_in(self.pool@, p) == held(kept, p) + uses(left, p));
            }
            assert(views(commands@) =~= total);
            assert(kept.take(0) =~= Seq::<Shader>::empty());
            assert(teardown_programs::<T>(kept.take(0)) =~= Seq::<CommandView<T>>::empty());
            assert(total + teardown_programs::<T>(kept.take(0)) =~= total);
        }
        let mut i: usize = 0;
        while i < self.programs.len()
            invariant
                i <= kept.len(),
                self.programs@ == kept,
                kept.no_duplicates(),
                self.shapes@.len() == 0,
                self.cube is None,
                all_owned(self.pool@),
                forall|p: u32| #[trigger]
                    count_in(self.pool@, p) == held(kept.skip(i as int), p),
                views(commands@) == total + teardown_programs::<T>(kept.take(i as int)),
            decreases kept.len() - i,
        {
            let shader = self.programs[i];
            let ghost pool = self.pool@;
            let ghost program = shader.program();
            let ghost so_far = commands@;
            proof {
                Shader::lemma_named(program);
                assert(kept.skip(i as int)[0] == shader);
                assert(kept.skip(i as int).contains(Shader::named(program)));
                assert(count_in(pool, program) == 1);
            }
            let gone: Option<Command<T>> = self.pool.release(shader);
            match gone {
                Some(command) => {
                    commands.push(command);
                    proof {
                        lemma_views_push(so_far, command);
                    }
                },
                None => {},
            }
            proof {
                assert(views(commands@) =~= total + teardown_programs::<T>(kept.take(i + 1)));
                assert forall|p: u32| #[trigger]
                    count_in(self.pool@, p) == held(kept.skip(i + 1), p) by {
                    Shader::lemma_named(p);
                    assert(count_in(pool, p) == held(kept.skip(i as int), p));
                    let here = kept.skip(i as int);
                    let next = kept.skip(i + 1);
                    if next.contains(Shader::named(p)) {
                        let k = choose|k: int| 0 <= k < next.len() && next[k] == Shader::named(p);
                        assert(here[k + 1] == Shader::named(p));
                        assert(kept[i + 1 + k] == Shader::named(p));
                        assert(p != program);
                    }
                    if here.contains(Shader::named(p)) && p != program {
                        let k = choose|k: int| 0 <= k < here.len() && here[k] == Shader::named(p);
                        assert(k != 0);
                        assert(next[k - 1] == Shader::named(p));
                    }
                }
            }
            i += 1;
        }
        self.programs.clear();
        proof {
            assert(kept.take(i as int) =~= kept);
            assert forall|p: u32| !self.pool@.contains_key(p) by {
                assert(count_in(self.pool@, p) == held(kept.skip(i as int), p));
                assert(kept.skip(i as int) =~= Seq::<Shader>::empty());
                if self.pool@.contains_key(p) {
                    assert(self.pool@[p] >= 1);
                }
            }
            assert(self.pool@ =~= Map::<u32, usize>::empty());
            assert(self.shapes@ =~= Seq::<AnyShape<T>>::empty());
            assert(self.members() =~= Seq::<Member>::empty());
        }
        commands
    }

    /// One turn of the main loop. `should_close` is what the window says at
    /// the top of the turn. While it is false, the turn is a frame; once it
    /// is true, the turn ends the scene instead, and nothing is drawn.
    pub fn run(&mut self, should_close: bool, turn: Option<Turn<T>>) -> (commands: Vec<Command<T>>)
        requires
            old(self).wf(),
        ensures
            final(self).wf(),
            should_close ==> final(self).is_empty() && views(commands@) == teardown_members::<T>(
                old(self).programs(),
                old(self).members(),
            ) + teardown_programs::<T>(old(self).programs()),
            !should_close ==> final(self).shapes() == old(self).shapes() && final(self).programs()
                == old(self).programs() && final(self).owners() == old(self).owners() && final(self).cube() == animate(old(self).cube(), turn) && views(commands@) == frame_commands(
                final(self).shapes(),
                final(self).cube(),
            ),
    {
        if should_close {
            self.cleanup()
        } else {
            self.frame(turn)
        }
    }

} // impl

} // verus!
