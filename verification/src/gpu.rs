//! A model of what the commands do to the driver's state, and what the
//! library's command sequences are worth in it.
//!
//! Nothing here runs. The model says how the bindings and the buffers change
//! with each command; the lemmas say that the sequences the library hands out
//! leave no binding behind, keep buffers apart, and give back what they took.

use vstd::prelude::*;
use crate::any_shape::AnyShape;
use crate::buffers::{attribute_commands, draw_sequence, release_sequence, upload_sequence};
use crate::command::{CommandView, Primitive, VertexAttribute};
use crate::cube::{cube_draw_sequence, Cube};
use crate::draw::Shape;
use crate::scene::{draws, frame_commands, has_depth};
use crate::shader::UniformLocation;

verus! {

/// The part of the driver's state that the commands of a shape touch.
pub struct GpuState<T> {
    /// The vertex arrays that exist.
    pub arrays: Set<u32>,
    /// The vertex buffers that exist, each with what it holds.
    pub buffers: Map<u32, Seq<T>>,
    /// The current vertex array; 0 if there is none.
    pub bound_array: u32,
    /// The current vertex buffer; 0 if there is none.
    pub bound_buffer: u32,
    /// The active program; 0 if there is none.
    pub program: u32,
}

impl<T> GpuState<T> {
    /// Neither a vertex array nor a vertex buffer is current.
    pub open spec fn unbound(&self) -> bool {
        self.bound_array == 0 && self.bound_buffer == 0
    }
}

/// The state after one command.
///
/// Binding a name for the first time brings the object into existence, a
/// buffer with nothing in it. Data goes to the current buffer and replaces
/// what it held. Deleting an object that is current leaves none current.
pub open spec fn step<T>(state: GpuState<T>, command: CommandView<T>) -> GpuState<T> {
    match command {
        CommandView::BindVertexArray { array } => GpuState {
            arrays: if array != 0 {
                state.arrays.insert(array)
            } else {
                state.arrays
            },
            bound_array: array,
            ..state
        },
        CommandView::BindBuffer { buffer } => GpuState {
            buffers: if buffer != 0 && !state.buffers.contains_key(buffer) {
                state.buffers.insert(buffer, Seq::empty())
            } else {
                state.buffers
            },
            bound_buffer: buffer,
            ..state
        },
        CommandView::BufferData { data } => GpuState {
            buffers: if state.bound_buffer != 0 {
                state.buffers.insert(state.bound_buffer, data)
            } else {
                state.buffers
            },
            ..state
        },
        CommandView::UseProgram { program } => GpuState { program, ..state },
        CommandView::DeleteVertexArray { array } => GpuState {
            arrays: state.arrays.remove(array),
            bound_array: if state.bound_array == array {
                0
            } else {
                state.bound_array
            },
            ..state
        },
        CommandView::DeleteBuffer { buffer } => GpuState {
            buffers: state.buffers.remove(buffer),
            bound_buffer: if state.bound_buffer == buffer {
                0
            } else {
                state.bound_buffer
            },
            ..state
        },
        _ => state,
    }
}

/// The state after a list of commands, performed in order.
pub open spec fn run<T>(state: GpuState<T>, commands: Seq<CommandView<T>>) -> GpuState<T>
    decreases commands.len(),
{
    if commands.len() == 0 {
        state
    } else {
        step(run(state, commands.drop_last()), commands.last())
    }
}

/// Running one list behind another is running the second from where the
/// first ended.
pub proof fn lemma_run_add<T>(state: GpuState<T>, a: Seq<CommandView<T>>, b: Seq<CommandView<T>>)
    ensures
        run(state, a + b) == run(run(state, a), b),
    decreases b.len(),
{
    if b.len() == 0 {
        assert(a + b =~= a);
    } else {
        assert((a + b).drop_last() =~= a + b.drop_last());
        lemma_run_add(state, a, b.drop_last());
    }
}

proof fn lemma_run_one<T>(state: GpuState<T>, c: CommandView<T>)
    ensures
        run(state, seq![c]) == step(state, c),
{
    let one = seq![c];
    assert(one.drop_last() =~= Seq::<CommandView<T>>::empty());
    assert(one.last() == c);
    assert(run(state, one.drop_last()) == state);
}

proof fn lemma_run_two<T>(state: GpuState<T>, c0: CommandView<T>, c1: CommandView<T>)
    ensures
        run(state, seq![c0, c1]) == step(step(state, c0), c1),
{
    assert(seq![c0, c1].drop_last() =~= seq![c0]);
    lemma_run_one(state, c0);
}

proof fn lemma_run_three<T>(
    state: GpuState<T>,
    c0: CommandView<T>,
    c1: CommandView<T>,
    c2: CommandView<T>,
)
    ensures
        run(state, seq![c0, c1, c2]) == step(step(step(state, c0), c1), c2),
{
    assert(seq![c0, c1, c2].drop_last() =~= seq![c0, c1]);
    lemma_run_two(state, c0, c1);
}

/// Describing and enabling attributes changes neither a binding nor a
/// buffer.
pub proof fn lemma_attributes_keep_state<T>(state: GpuState<T>, attributes: Seq<VertexAttribute>)
    ensures
        run(state, attribute_commands::<T>(attributes)) == state,
    decreases attributes.len(),
{
    if attributes.len() > 0 {
        let last = attributes.last();
        let pair = seq![
            CommandView::<T>::VertexAttribPointer { attribute: last },
            CommandView::<T>::EnableVertexAttribArray { index: last.index },
        ];
        lemma_attributes_keep_state::<T>(state, attributes.drop_last());
        lemma_run_add(state, attribute_commands::<T>(attributes.drop_last()), pair);
        lemma_run_two(
            state,
            CommandView::<T>::VertexAttribPointer { attribute: last },
            CommandView::<T>::EnableVertexAttribArray { index: last.index },
        );
    }
}

/// An upload leaves nothing bound. The shape's vertex array exists
/// afterwards, its buffer holds exactly the data, and every other buffer
/// holds what it held. The active program is not touched.
pub proof fn lemma_upload<T>(
    state: GpuState<T>,
    array: u32,
    buffer: u32,
    data: Seq<T>,
    attributes: Seq<VertexAttribute>,
)
    requires
        array != 0,
        buffer != 0,
    ensures
        run(state, upload_sequence(array, buffer, data, attributes)) == (GpuState {
            arrays: state.arrays.insert(array),
            buffers: state.buffers.insert(buffer, data),
            bound_array: 0,
            bound_buffer: 0,
            program: state.program,
        }),
        run(state, upload_sequence(array, buffer, data, attributes)).unbound(),
{
    let head = seq![
        CommandView::BindVertexArray { array },
        CommandView::BindBuffer { buffer },
        CommandView::BufferData { data },
    ];
    let middle = attribute_commands::<T>(attributes);
    let tail = seq![
        CommandView::<T>::BindBuffer { buffer: 0 },
        CommandView::<T>::BindVertexArray { array: 0 },
    ];
    lemma_run_add(state, head + middle, tail);
    lemma_run_add(state, head, middle);
    lemma_run_three(
        state,
        CommandView::BindVertexArray { array },
        CommandView::BindBuffer { buffer },
        CommandView::BufferData { data },
    );
    let filled = run(state, head);
    lemma_attributes_keep_state::<T>(filled, attributes);
    lemma_run_two(
        filled,
        CommandView::<T>::BindBuffer { buffer: 0 },
        CommandView::<T>::BindVertexArray { array: 0 },
    );
    assert(filled.buffers =~= state.buffers.insert(buffer, data));
    let end = run(state, upload_sequence(array, buffer, data, attributes));
    assert(end.buffers =~= state.buffers.insert(buffer, data));
    assert(end.arrays =~= state.arrays.insert(array));
}

/// A draw makes the shape's program the active one and leaves no vertex
/// array bound. It changes no buffer and creates nothing but, at most, the
/// array it draws.
pub proof fn lemma_draw<T>(state: GpuState<T>, program: u32, array: u32, mode: Primitive, count: i32)
    ensures
        run(state, draw_sequence::<T>(program, array, mode, count)).bound_array == 0,
        run(state, draw_sequence::<T>(program, array, mode, count)).program == program,
        run(state, draw_sequence::<T>(program, array, mode, count)).buffers == state.buffers,
        run(state, draw_sequence::<T>(program, array, mode, count)).bound_buffer
            == state.bound_buffer,
        state.arrays.contains(array) ==> run(
            state,
            draw_sequence::<T>(program, array, mode, count),
        ).arrays == state.arrays,
{
    let head = seq![
        CommandView::<T>::UseProgram { program },
        CommandView::<T>::BindVertexArray { array },
        CommandView::<T>::DrawArrays { mode, first: 0, count },
    ];
    let tail = seq![CommandView::<T>::BindVertexArray { array: 0 }];
    assert(draw_sequence::<T>(program, array, mode, count) =~= head + tail);
    lemma_run_add(state, head, tail);
    lemma_run_three(
        state,
        CommandView::<T>::UseProgram { program },
        CommandView::<T>::BindVertexArray { array },
        CommandView::<T>::DrawArrays { mode, first: 0, count },
    );
    lemma_run_one(run(state, head), CommandView::<T>::BindVertexArray { array: 0 });
    if state.arrays.contains(array) {
        assert(state.arrays.insert(array) =~= state.arrays);
    }
}

/// The draw of a cube does the same, whether or not its program has a place
/// for the rotation.
pub proof fn lemma_cube_draw<T>(
    state: GpuState<T>,
    program: u32,
    array: u32,
    location: UniformLocation,
    transform: Seq<T>,
)
    ensures
        run(state, cube_draw_sequence(program, array, location, transform)).bound_array == 0,
        run(state, cube_draw_sequence(program, array, location, transform)).program == program,
        run(state, cube_draw_sequence(program, array, location, transform)).buffers
            == state.buffers,
        run(state, cube_draw_sequence(program, array, location, transform)).bound_buffer
            == state.bound_buffer,
        state.arrays.contains(array) ==> run(
            state,
            cube_draw_sequence(program, array, location, transform),
        ).arrays == state.arrays,
{
    let first = seq![CommandView::<T>::UseProgram { program }];
    let upload = if location.present() {
        seq![CommandView::UniformMatrix4 { location: location.slot, matrix: transform }]
    } else {
        Seq::empty()
    };
    let tail = seq![
        CommandView::<T>::BindVertexArray { array },
        CommandView::<T>::DrawArrays { mode: Primitive::Triangles, first: 0, count: 36 },
        CommandView::<T>::BindVertexArray { array: 0 },
    ];
    lemma_run_add(state, first + upload, tail);
    lemma_run_add(state, first, upload);
    lemma_run_one(state, CommandView::<T>::UseProgram { program });
    let active = run(state, first);
    if location.present() {
        lemma_run_one(
            active,
            CommandView::UniformMatrix4 { location: location.slot, matrix: transform },
        );
    }
    lemma_run_three(
        active,
        CommandView::<T>::BindVertexArray { array },
        CommandView::<T>::DrawArrays { mode: Primitive::Triangles, first: 0, count: 36 },
        CommandView::<T>::BindVertexArray { array: 0 },
    );
    if state.arrays.contains(array) {
        assert(state.arrays.insert(array) =~= state.arrays);
    }
}

/// Whatever shape it is, its draw leaves no vertex array bound, makes its
/// program the active one and changes no buffer.
pub proof fn lemma_shape_draw<T: Copy>(state: GpuState<T>, shape: AnyShape<T>)
    ensures
        run(state, shape.draw_commands()).bound_array == 0,
        run(state, shape.draw_commands()).program == shape.shader().program(),
        run(state, shape.draw_commands()).buffers == state.buffers,
        run(state, shape.draw_commands()).bound_buffer == state.bound_buffer,
{
    let program = shape.shader().program();
    let array = shape.buffers().array();
    match shape {
        AnyShape::Triangle(s) => {
            lemma_draw::<T>(state, program, array, Primitive::Triangles, 3);
        },
        AnyShape::Rectangle(s) => {
            lemma_draw::<T>(state, program, array, Primitive::TriangleFan, 4);
        },
        AnyShape::Circle(s) => {
            lemma_draw::<T>(state, program, array, Primitive::TriangleFan, s.ring().len() as i32);
        },
        AnyShape::Cube(s) => {
            lemma_cube_draw(state, program, array, s.location(), s.transform().cells@);
        },
    }
}

/// However many shapes are drawn one after the other, no vertex array is
/// bound at the end that was not bound at the start, and no buffer has
/// changed.
pub proof fn lemma_draws<T: Copy>(state: GpuState<T>, shapes: Seq<AnyShape<T>>)
    ensures
        shapes.len() > 0 || state.bound_array == 0 ==> run(state, draws(shapes)).bound_array == 0,
        run(state, draws(shapes)).buffers == state.buffers,
        run(state, draws(shapes)).bound_buffer == state.bound_buffer,
    decreases shapes.len(),
{
    if shapes.len() > 0 {
        lemma_draws(state, shapes.drop_last());
        lemma_run_add(state, draws(shapes.drop_last()), shapes.last().draw_commands());
        lemma_shape_draw(run(state, draws(shapes.drop_last())), shapes.last());
    }
}

/// A frame leaves the bindings as it found them: where no vertex array was
/// bound before the frame, none is bound after it, the current buffer is the
/// same, and every buffer holds what it held.
pub proof fn lemma_frame<T: Copy>(
    state: GpuState<T>,
    shapes: Seq<AnyShape<T>>,
    cube: Option<Cube<T>>,
)
    requires
        state.bound_array == 0,
    ensures
        run(state, frame_commands(shapes, cube)).bound_array == 0,
        run(state, frame_commands(shapes, cube)).bound_buffer == state.bound_buffer,
        run(state, frame_commands(shapes, cube)).buffers == state.buffers,
{
    let head = seq![
        CommandView::<T>::PollEvents,
        CommandView::<T>::DepthTest { enabled: has_depth(shapes, cube) },
        CommandView::<T>::Clear { color: true, depth: true },
    ];
    let last = match cube {
        Some(c) => c.draw_commands(),
        None => Seq::empty(),
    };
    let tail = seq![CommandView::<T>::SwapBuffers];
    lemma_run_add(state, head + draws(shapes) + last, tail);
    lemma_run_add(state, head + draws(shapes), last);
    lemma_run_add(state, head, draws(shapes));
    lemma_run_three(
        state,
        CommandView::<T>::PollEvents,
        CommandView::<T>::DepthTest { enabled: has_depth(shapes, cube) },
        CommandView::<T>::Clear { color: true, depth: true },
    );
    lemma_draws(run(state, head), shapes);
    let drawn = run(state, head + draws(shapes));
    match cube {
        Some(c) => {
            lemma_cube_draw(
                drawn,
                c.shader().program(),
                c.buffers().array(),
                c.location(),
                c.transform().cells@,
            );
        },
        None => {},
    }
    lemma_run_one(run(state, head + draws(shapes) + last), CommandView::<T>::SwapBuffers);
}

/// A release ends the shape's vertex array and its buffer, and nothing
/// else; if one of the two was current, none is current afterwards.
pub proof fn lemma_release<T>(state: GpuState<T>, array: u32, buffer: u32)
    ensures
        run(state, release_sequence::<T>(array, buffer)) == (GpuState {
            arrays: state.arrays.remove(array),
            buffers: state.buffers.remove(buffer),
            bound_array: if state.bound_array == array {
                0
            } else {
                state.bound_array
            },
            bound_buffer: if state.bound_buffer == buffer {
                0
            } else {
                state.bound_buffer
            },
            program: state.program,
        }),
{
    lemma_run_two(
        state,
        CommandView::<T>::DeleteVertexArray { array },
        CommandView::<T>::DeleteBuffer { buffer },
    );
}

/// The life of one shape, from upload to release.
pub open spec fn shape_cycle<T>(
    array: u32,
    buffer: u32,
    data: Seq<T>,
    attributes: Seq<VertexAttribute>,
) -> Seq<CommandView<T>> {
    upload_sequence(array, buffer, data, attributes) + release_sequence::<T>(array, buffer)
}

/// Nothing is left of a shape that was released: where nothing was bound
/// and the two names were free, the state after upload and release is the
/// state before.
pub proof fn lemma_cycle_leaves_nothing<T>(
    state: GpuState<T>,
    array: u32,
    buffer: u32,
    data: Seq<T>,
    attributes: Seq<VertexAttribute>,
)
    requires
        array != 0,
        buffer != 0,
        state.unbound(),
        !state.arrays.contains(array),
        !state.buffers.contains_key(buffer),
    ensures
        run(state, shape_cycle(array, buffer, data, attributes)) == state,
{
    let up = upload_sequence(array, buffer, data, attributes);
    let down = release_sequence::<T>(array, buffer);
    lemma_run_add(state, up, down);
    lemma_upload(state, array, buffer, data, attributes);
    lemma_release(run(state, up), array, buffer);
    let end = run(state, shape_cycle(array, buffer, data, attributes));
    assert(end.arrays =~= state.arrays);
    assert(end.buffers =~= state.buffers);
}

/// `cycles` shapes, one after the other, all with the same two names; the
/// `i`-th uploads `data(i)`.
pub open spec fn repeated_cycles<T>(
    array: u32,
    buffer: u32,
    data: spec_fn(int) -> Seq<T>,
    attributes: Seq<VertexAttribute>,
    cycles: nat,
) -> Seq<CommandView<T>>
    decreases cycles,
{
    if cycles == 0 {
        Seq::empty()
    } else {
        repeated_cycles(array, buffer, data, attributes, (cycles - 1) as nat) + shape_cycle(
            array,
            buffer,
            data(cycles - 1),
            attributes,
        )
    }
}

/// Making and releasing shapes again and again under the same two names
/// leaves the state as it was, however often it is done.
pub proof fn lemma_cycles_leave_nothing<T>(
    state: GpuState<T>,
    array: u32,
    buffer: u32,
    data: spec_fn(int) -> Seq<T>,
    attributes: Seq<VertexAttribute>,
    cycles: nat,
)
    requires
        array != 0,
        buffer != 0,
        state.unbound(),
        !state.arrays.contains(array),
        !state.buffers.contains_key(buffer),
    ensures
        run(state, repeated_cycles(array, buffer, data, attributes, cycles)) == state,
    decreases cycles,
{
    if cycles > 0 {
        let before = repeated_cycles(array, buffer, data, attributes, (cycles - 1) as nat);
        lemma_cycles_leave_nothing(state, array, buffer, data, attributes, (cycles - 1) as nat);
        lemma_run_add(state, before, shape_cycle(array, buffer, data(cycles - 1), attributes));
        lemma_cycle_leaves_nothing(state, array, buffer, data(cycles - 1), attributes);
    }
}

/// A shape that is made under names which an earlier shape gave back finds
/// its own data in the buffer, not the earlier shape's: after any number of
/// earlier lives under the same names, an upload of `fresh` leaves the buffer
/// holding `fresh`.
pub proof fn lemma_reused_names_hold_fresh_data<T>(
    state: GpuState<T>,
    array: u32,
    buffer: u32,
    data: spec_fn(int) -> Seq<T>,
    attributes: Seq<VertexAttribute>,
    cycles: nat,
    fresh: Seq<T>,
)
    requires
        array != 0,
        buffer != 0,
        state.unbound(),
        !state.arrays.contains(array),
        !state.buffers.contains_key(buffer),
    ensures
        run(
            state,
            repeated_cycles(array, buffer, data, attributes, cycles) + upload_sequence(
                array,
                buffer,
                fresh,
                attributes,
            ),
        ).buffers == state.buffers.insert(buffer, fresh),
        run(
            state,
            repeated_cycles(array, buffer, data, attributes, cycles) + upload_sequence(
                array,
                buffer,
                fresh,
                attributes,
            ),
        ).buffers[buffer] == fresh,
{
    let earlier = repeated_cycles(array, buffer, data, attributes, cycles);
    lemma_cycles_leave_nothing(state, array, buffer, data, attributes, cycles);
    lemma_run_add(state, earlier, upload_sequence(array, buffer, fresh, attributes));
    lemma_upload(state, array, buffer, fresh, attributes);
}

/// An upload does not reach into another shape's buffer: a buffer with
/// another name holds afterwards what it held before.
pub proof fn lemma_upload_keeps_others<T>(
    state: GpuState<T>,
    array: u32,
    buffer: u32,
    data: Seq<T>,
    attributes: Seq<VertexAttribute>,
    other: u32,
)
    requires
        array != 0,
        buffer != 0,
        other != buffer,
    ensures
        run(state, upload_sequence(array, buffer, data, attributes)).buffers.contains_key(other)
            == state.buffers.contains_key(other),
        state.buffers.contains_key(other) ==> run(
            state,
            upload_sequence(array, buffer, data, attributes),
        ).buffers[other] == state.buffers[other],
{
    lemma_upload(state, array, buffer, data, attributes);
}

} // verus!
