//! What a scene is, mathematically: who uses which program and which GPU
//! objects, in what order the shapes are drawn, and what is released when
//! the scene ends.

use vstd::prelude::*;
use crate::any_shape::AnyShape;
use crate::buffers::release_sequence;
use crate::command::CommandView;
use crate::cube::Cube;
use crate::draw::Shape;
use crate::shader::Shader;

verus! {

/// What a scene needs to know of one of its shapes: the names of its two
/// GPU objects and of its program.
pub struct Member {
    pub array: u32,
    pub buffer: u32,
    pub program: u32,
}

pub open spec fn member_of<T: Copy, S: Shape<T>>(shape: S) -> Member {
    Member {
        array: shape.buffers().array(),
        buffer: shape.buffers().buffer(),
        program: shape.shader().program(),
    }
}

/// The members of a scene in the order in which they are drawn and, at the
/// end, released: the shapes as they were added, then the animated cube.
pub open spec fn members<T: Copy>(shapes: Seq<AnyShape<T>>, cube: Option<Cube<T>>) -> Seq<Member> {
    Seq::new(shapes.len(), |i: int| member_of(shapes[i])) + match cube {
        Some(c) => seq![member_of(c)],
        None => Seq::empty(),
    }
}

/// How many of `members` are drawn by `program`.
pub open spec fn uses(members: Seq<Member>, program: u32) -> nat
    decreases members.len(),
{
    if members.len() == 0 {
        0
    } else {
        uses(members.drop_first(), program) + if members[0].program == program {
            1nat
        } else {
            0nat
        }
    }
}

/// Some member is drawn by `program`.
pub open spec fn used(members: Seq<Member>, program: u32) -> bool {
    exists|k: int| 0 <= k < members.len() && (#[trigger] members[k]).program == program
}

/// 1 if the scene itself is an owner of `program`, 0 if not.
pub open spec fn held(programs: Seq<Shader>, program: u32) -> nat {
    if programs.contains(Shader::named(program)) {
        1
    } else {
        0
    }
}

/// No two members share a vertex array, and no two a vertex buffer.
pub open spec fn distinct_handles(members: Seq<Member>) -> bool {
    forall|i: int, j: int|
        0 <= i < members.len() && 0 <= j < members.len() && i != j ==> (#[trigger] members[i]).array
            != (#[trigger] members[j]).array && members[i].buffer != members[j].buffer
}

/// No member has the vertex array `array` or the vertex buffer `buffer`.
pub open spec fn handles_free(members: Seq<Member>, array: u32, buffer: u32) -> bool {
    forall|k: int|
        0 <= k < members.len() ==> (#[trigger] members[k]).array != array && members[k].buffer
            != buffer
}

/// The draw commands of `shapes`, one shape after the other, in the order of
/// the sequence.
pub open spec fn draws<T: Copy>(shapes: Seq<AnyShape<T>>) -> Seq<CommandView<T>>
    decreases shapes.len(),
{
    if shapes.len() == 0 {
        Seq::empty()
    } else {
        draws(shapes.drop_last()) + shapes.last().draw_commands()
    }
}

/// Whether anything in the scene has depth: a cube, animated or not.
pub open spec fn has_depth<T: Copy>(shapes: Seq<AnyShape<T>>, cube: Option<Cube<T>>) -> bool {
    cube is Some || exists|i: int| 0 <= i < shapes.len() && #[trigger] shapes[i] is Cube
}

/// One frame: take the window's events, set the depth test, clear, draw the
/// shapes in the order in which they were added, draw the animated cube
/// last, present.
pub open spec fn frame_commands<T: Copy>(shapes: Seq<AnyShape<T>>, cube: Option<Cube<T>>) -> Seq<
    CommandView<T>,
> {
    seq![
        CommandView::PollEvents,
        CommandView::DepthTest { enabled: has_depth(shapes, cube) },
        CommandView::Clear { color: true, depth: true },
    ] + draws(shapes) + match cube {
        Some(c) => c.draw_commands(),
        None => Seq::empty(),
    } + seq![CommandView::SwapBuffers]
}

/// The program's last owner is gone with this member: the scene itself does
/// not hold it, and none of the members behind this one are drawn by it.
pub open spec fn orphaned(programs: Seq<Shader>, rest: Seq<Member>, program: u32) -> bool {
    held(programs, program) == 0 && !used(rest, program)
}

/// The release of the members in order. Each gives up its vertex array and
/// its vertex buffer; a program follows the last member that it drew, unless
/// the scene holds the program itself.
pub open spec fn teardown_members<T>(programs: Seq<Shader>, members: Seq<Member>) -> Seq<
    CommandView<T>,
>
    decreases members.len(),
{
    if members.len() == 0 {
        Seq::empty()
    } else {
        let first = members[0];
        let rest = members.drop_first();
        release_sequence::<T>(first.array, first.buffer) + (if orphaned(
            programs,
            rest,
            first.program,
        ) {
            seq![CommandView::<T>::DeleteProgram { program: first.program }]
        } else {
            Seq::empty()
        }) + teardown_members::<T>(programs, rest)
    }
}

/// The release of the programs that the scene holds itself, in the order in
/// which it took them.
pub open spec fn teardown_programs<T>(programs: Seq<Shader>) -> Seq<CommandView<T>> {
    Seq::new(
        programs.len(),
        |i: int| CommandView::<T>::DeleteProgram { program: programs[i].program() },
    )
}

/// Counting over a concatenation is adding the counts.
pub proof fn lemma_uses_add(a: Seq<Member>, b: Seq<Member>, program: u32)
    ensures
        uses(a + b, program) == uses(a, program) + uses(b, program),
    decreases a.len(),
{
    if a.len() == 0 {
        assert(a + b =~= b);
    } else {
        assert((a + b).drop_first() =~= a.drop_first() + b);
        lemma_uses_add(a.drop_first(), b, program);
    }
}

/// A new member counts once, for its own program, wherever it is put.
pub proof fn lemma_uses_insert(all: Seq<Member>, at: int, member: Member, program: u32)
    requires
        0 <= at <= all.len(),
    ensures
        uses(all.insert(at, member), program) == uses(all, program) + if member.program == program {
            1nat
        } else {
            0nat
        },
{
    let head = all.subrange(0, at);
    let tail = all.subrange(at, all.len() as int);
    let one = seq![member];
    assert(all =~= head + tail);
    assert(all.insert(at, member) =~= head + (one + tail));
    lemma_uses_add(head, tail, program);
    lemma_uses_add(head, one + tail, program);
    lemma_uses_add(one, tail, program);
    assert(one.drop_first() =~= Seq::<Member>::empty());
    assert(uses(one.drop_first(), program) == 0);
    assert(one[0] == member);
    assert(uses(one, program) == if member.program == program {
        1nat
    } else {
        0nat
    });
}

/// A program that draws nothing is counted 0 times, and only such a one.
pub proof fn lemma_uses_none(all: Seq<Member>, program: u32)
    ensures
        uses(all, program) == 0 <==> !used(all, program),
        uses(all, program) <= all.len(),
    decreases all.len(),
{
    if all.len() > 0 {
        let rest = all.drop_first();
        lemma_uses_none(rest, program);
        if used(rest, program) {
            let k = choose|k: int| 0 <= k < rest.len() && (#[trigger] rest[k]).program == program;
            assert(all[k + 1].program == program);
        }
        if used(all, program) && all[0].program != program {
            let k = choose|k: int| 0 <= k < all.len() && (#[trigger] all[k]).program == program;
            assert(rest[k - 1].program == program);
        }
    }
}

/// Members stay apart when one with fresh names joins them, wherever it is
/// put.
pub proof fn lemma_distinct_insert(all: Seq<Member>, at: int, member: Member)
    requires
        0 <= at <= all.len(),
        distinct_handles(all),
        handles_free(all, member.array, member.buffer),
    ensures
        distinct_handles(all.insert(at, member)),
{
    let more = all.insert(at, member);
    assert forall|i: int, j: int| 0 <= i < more.len() && 0 <= j < more.len() && i != j implies (
    #[trigger] more[i]).array != (#[trigger] more[j]).array && more[i].buffer
        != more[j].buffer by {
        let oi = if i < at {
            i
        } else {
            i - 1
        };
        let oj = if j < at {
            j
        } else {
            j - 1
        };
        if i != at {
            assert(more[i] == all[oi]);
        }
        if j != at {
            assert(more[j] == all[oj]);
        }
    }
}

/// The shapes are drawn in the order in which they stand: the draw commands
/// of two lists, one behind the other, are those of the first followed by
/// those of the second.
pub proof fn lemma_draws_add<T: Copy>(a: Seq<AnyShape<T>>, b: Seq<AnyShape<T>>)
    ensures
        draws(a + b) == draws(a) + draws(b),
    decreases b.len(),
{
    if b.len() == 0 {
        assert(a + b =~= a);
    } else {
        assert((a + b).drop_last() =~= a + b.drop_last());
        assert((a + b).last() == b.last());
        lemma_draws_add(a, b.drop_last());
        assert(draws(a + b) =~= draws(a) + draws(b));
    }
}

/// How often `command` stands in `commands`.
pub open spec fn occurrences<T>(commands: Seq<CommandView<T>>, command: CommandView<T>) -> nat
    decreases commands.len(),
{
    if commands.len() == 0 {
        0
    } else {
        occurrences(commands.drop_last(), command) + if commands.last() == command {
            1nat
        } else {
            0nat
        }
    }
}

/// Counting over a concatenation is adding the counts.
pub proof fn lemma_occurrences_add<T>(
    a: Seq<CommandView<T>>,
    b: Seq<CommandView<T>>,
    command: CommandView<T>,
)
    ensures
        occurrences(a + b, command) == occurrences(a, command) + occurrences(b, command),
    decreases b.len(),
{
    if b.len() == 0 {
        assert(a + b =~= a);
    } else {
        assert((a + b).drop_last() =~= a + b.drop_last());
        lemma_occurrences_add(a, b.drop_last(), command);
    }
}

proof fn lemma_occurrences_short<T>(commands: Seq<CommandView<T>>, command: CommandView<T>)
    requires
        commands.len() <= 2,
    ensures
        occurrences(commands, command) == (if commands.len() >= 1 && commands[0] == command {
            1nat
        } else {
            0nat
        }) + (if commands.len() >= 2 && commands[1] == command {
            1nat
        } else {
            0nat
        }),
{
    if commands.len() == 2 {
        let front = commands.drop_last();
        assert(front.len() == 1);
        assert(front.drop_last().len() == 0);
        assert(occurrences(front.drop_last(), command) == 0);
        assert(front.last() == commands[0]);
        assert(commands.last() == commands[1]);
        assert(occurrences(front, command) == if commands[0] == command {
            1nat
        } else {
            0nat
        });
    } else if commands.len() == 1 {
        assert(commands.drop_last().len() == 0);
        assert(occurrences(commands.drop_last(), command) == 0);
        assert(commands.last() == commands[0]);
    }
}

/// Some member has the vertex array `array`.
pub open spec fn has_array(all: Seq<Member>, array: u32) -> bool {
    exists|k: int| 0 <= k < all.len() && (#[trigger] all[k]).array == array
}

/// Some member has the vertex buffer `buffer`.
pub open spec fn has_buffer(all: Seq<Member>, buffer: u32) -> bool {
    exists|k: int| 0 <= k < all.len() && (#[trigger] all[k]).buffer == buffer
}

proof fn lemma_programs_released_once<T>(programs: Seq<Shader>, program: u32)
    requires
        programs.no_duplicates(),
    ensures
        occurrences(
            teardown_programs::<T>(programs),
            CommandView::<T>::DeleteProgram { program },
        ) == held(programs, program),
    decreases programs.len(),
{
    let gone = CommandView::<T>::DeleteProgram { program };
    Shader::lemma_named(program);
    if programs.len() > 0 {
        let front = programs.drop_last();
        let last = programs.last();
        Shader::lemma_named(last.program());
        assert(teardown_programs::<T>(programs).drop_last() =~= teardown_programs::<T>(front));
        lemma_programs_released_once::<T>(front, program);
        if front.contains(Shader::named(program)) {
            let k = choose|k: int| 0 <= k < front.len() && front[k] == Shader::named(program);
            assert(programs[k] == Shader::named(program));
            assert(last != Shader::named(program));
        } else if programs.contains(Shader::named(program)) {
            let k = choose|k: int| 0 <= k < programs.len() && programs[k] == Shader::named(program);
            if k < front.len() {
                assert(front[k] == Shader::named(program));
            }
        }
        if last.program() == program {
            assert(programs[programs.len() - 1] == Shader::named(program));
        }
    }
}

proof fn lemma_members_release_programs_once<T>(
    programs: Seq<Shader>,
    all: Seq<Member>,
    program: u32,
)
    ensures
        occurrences(
            teardown_members::<T>(programs, all),
            CommandView::<T>::DeleteProgram { program },
        ) == if held(programs, program) == 0 && used(all, program) {
            1nat
        } else {
            0nat
        },
    decreases all.len(),
{
    let gone = CommandView::<T>::DeleteProgram { program };
    if all.len() > 0 {
        let first = all[0];
        let rest = all.drop_first();
        let given_up = release_sequence::<T>(first.array, first.buffer);
        let orphan = if orphaned(programs, rest, first.program) {
            seq![CommandView::<T>::DeleteProgram { program: first.program }]
        } else {
            Seq::<CommandView<T>>::empty()
        };
        lemma_members_release_programs_once::<T>(programs, rest, program);
        lemma_occurrences_add(given_up + orphan, teardown_members::<T>(programs, rest), gone);
        lemma_occurrences_add(given_up, orphan, gone);
        lemma_occurrences_short(given_up, gone);
        lemma_occurrences_short(orphan, gone);
        if used(rest, program) {
            let k = choose|k: int| 0 <= k < rest.len() && (#[trigger] rest[k]).program == program;
            assert(all[k + 1].program == program);
        }
        if used(all, program) && first.program != program {
            let k = choose|k: int| 0 <= k < all.len() && (#[trigger] all[k]).program == program;
            assert(rest[k - 1].program == program);
        }
    }
}

proof fn lemma_members_release_handles_once<T>(programs: Seq<Shader>, all: Seq<Member>, name: u32)
    requires
        distinct_handles(all),
    ensures
        occurrences(
            teardown_members::<T>(programs, all),
            CommandView::<T>::DeleteVertexArray { array: name },
        ) == if has_array(all, name) {
            1nat
        } else {
            0nat
        },
        occurrences(
            teardown_members::<T>(programs, all),
            CommandView::<T>::DeleteBuffer { buffer: name },
        ) == if has_buffer(all, name) {
            1nat
        } else {
            0nat
        },
    decreases all.len(),
{
    let array_gone = CommandView::<T>::DeleteVertexArray { array: name };
    let buffer_gone = CommandView::<T>::DeleteBuffer { buffer: name };
    if all.len() > 0 {
        let first = all[0];
        let rest = all.drop_first();
        let given_up = release_sequence::<T>(first.array, first.buffer);
        let orphan = if orphaned(programs, rest, first.program) {
            seq![CommandView::<T>::DeleteProgram { program: first.program }]
        } else {
            Seq::<CommandView<T>>::empty()
        };
        assert(distinct_handles(rest)) by {
            assert forall|i: int, j: int|
                0 <= i < rest.len() && 0 <= j < rest.len() && i != j implies (#[trigger] rest[i]).array
                != (#[trigger] rest[j]).array && rest[i].buffer != rest[j].buffer by {
                assert(rest[i] == all[i + 1] && rest[j] == all[j + 1]);
            }
        }
        lemma_members_release_handles_once::<T>(programs, rest, name);
        lemma_occurrences_add(given_up + orphan, teardown_members::<T>(programs, rest), array_gone);
        lemma_occurrences_add(given_up, orphan, array_gone);
        lemma_occurrences_short(given_up, array_gone);
        lemma_occurrences_short(orphan, array_gone);
        lemma_occurrences_add(
            given_up + orphan,
            teardown_members::<T>(programs, rest),
            buffer_gone,
        );
        lemma_occurrences_add(given_up, orphan, buffer_gone);
        lemma_occurrences_short(given_up, buffer_gone);
        lemma_occurrences_short(orphan, buffer_gone);
        if has_array(rest, name) {
            let k = choose|k: int| 0 <= k < rest.len() && (#[trigger] rest[k]).array == name;
            assert(all[k + 1].array == name);
            assert(all[0].array != all[k + 1].array);
        }
        if has_array(all, name) && first.array != name {
            let k = choose|k: int| 0 <= k < all.len() && (#[trigger] all[k]).array == name;
            assert(rest[k - 1].array == name);
        }
        if has_buffer(rest, name) {
            let k = choose|k: int| 0 <= k < rest.len() && (#[trigger] rest[k]).buffer == name;
            assert(all[k + 1].buffer == name);
            assert(all[0].buffer != all[k + 1].buffer);
        }
        if has_buffer(all, name) && first.buffer != name {
            let k = choose|k: int| 0 <= k < all.len() && (#[trigger] all[k]).buffer == name;
            assert(rest[k - 1].buffer == name);
        }
    }
}

proof fn lemma_programs_release_no_handles<T>(programs: Seq<Shader>, name: u32)
    ensures
        occurrences(
            teardown_programs::<T>(programs),
            CommandView::<T>::DeleteVertexArray { array: name },
        ) == 0,
        occurrences(
            teardown_programs::<T>(programs),
            CommandView::<T>::DeleteBuffer { buffer: name },
        ) == 0,
    decreases programs.len(),
{
    if programs.len() > 0 {
        let front = programs.drop_last();
        assert(teardown_programs::<T>(programs).drop_last() =~= teardown_programs::<T>(front));
        lemma_programs_release_no_handles::<T>(front, name);
    }
}

/// The end of a scene releases everything once and nothing twice.
///
/// In the commands that end a scene whose programs are held at most once
/// and whose members share no GPU object: a program is released once if the
/// scene holds it or a member is drawn by it, and not at all if neither; a
/// vertex array and a vertex buffer are released once if a member has them,
/// and not at all if none has.
pub proof fn lemma_teardown_releases_once<T>(programs: Seq<Shader>, all: Seq<Member>, name: u32)
    requires
        programs.no_duplicates(),
        distinct_handles(all),
    ensures
        occurrences(
            teardown_members::<T>(programs, all) + teardown_programs::<T>(programs),
            CommandView::<T>::DeleteProgram { program: name },
        ) == if held(programs, name) == 1 || used(all, name) {
            1nat
        } else {
            0nat
        },
        occurrences(
            teardown_members::<T>(programs, all) + teardown_programs::<T>(programs),
            CommandView::<T>::DeleteVertexArray { array: name },
        ) == if has_array(all, name) {
            1nat
        } else {
            0nat
        },
        occurrences(
            teardown_members::<T>(programs, all) + teardown_programs::<T>(programs),
            CommandView::<T>::DeleteBuffer { buffer: name },
        ) == if has_buffer(all, name) {
            1nat
        } else {
            0nat
        },
{
    let first = teardown_members::<T>(programs, all);
    let second = teardown_programs::<T>(programs);
    lemma_occurrences_add(first, second, CommandView::<T>::DeleteProgram { program: name });
    lemma_occurrences_add(first, second, CommandView::<T>::DeleteVertexArray { array: name });
    lemma_occurrences_add(first, second, CommandView::<T>::DeleteBuffer { buffer: name });
    lemma_programs_released_once::<T>(programs, name);
    lemma_members_release_programs_once::<T>(programs, all, name);
    lemma_members_release_handles_once::<T>(programs, all, name);
    lemma_programs_release_no_handles::<T>(programs, name);
}

} // verus!
