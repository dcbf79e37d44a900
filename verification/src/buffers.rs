//! The pair of GPU objects behind one shape, and the three command
//! sequences that every shape runs on them: upload once, draw each frame,
//! release at the end.

use vstd::prelude::*;
use crate::command::{views, Command, CommandView, Primitive, VertexAttribute};

verus! {

/// The names of one vertex array and one vertex buffer.
///
/// The host generates both names and gives them to exactly one shape. They
/// are never 0, the name that stands for "none", and the pair can be neither
/// copied nor cloned: whoever holds it is the only one who may release it.
#[derive(Debug)]
pub struct BufferHandles {
    vertex_array: u32,
    vertex_buffer: u32,
}

impl BufferHandles {
    #[verifier::type_invariant]
    spec fn named(self) -> bool {
        self.vertex_array != 0 && self.vertex_buffer != 0
    }

    /// The vertex array's name.
    pub closed spec fn array(&self) -> u32 {
        self.vertex_array
    }

    /// The vertex buffer's name.
    pub closed spec fn buffer(&self) -> u32 {
        self.vertex_buffer
    }

    /// Both names are real names.
    pub open spec fn wf(&self) -> bool {
        self.array() != 0 && self.buffer() != 0
    }

    /// Takes two generated names; refuses the pair if either is 0.
    pub fn new(vertex_array: u32, vertex_buffer: u32) -> (handles: Option<Self>)
        ensures
            handles is Some <==> vertex_array != 0 && vertex_buffer != 0,
            handles matches Some(h) ==> h.array() == vertex_array && h.buffer() == vertex_buffer
                && h.wf(),
    {
        if vertex_array != 0 && vertex_buffer != 0 {
            Some(BufferHandles { vertex_array, vertex_buffer })
        } else {
            None
        }
    }

    pub fn vertex_array(&self) -> (name: u32)
        ensures
            name == self.array(),
            name != 0,
    {
        proof {
            use_type_invariant(self);
        }
        self.vertex_array
    }

    pub fn vertex_buffer(&self) -> (name: u32)
        ensures
            name == self.buffer(),
            name != 0,
    {
        proof {
            use_type_invariant(self);
        }
        self.vertex_buffer
    }
}

/// `attributes` describe a buffer of `vertices` vertices that holds `length`
/// scalars: every attribute lies inside one vertex, all agree on the size of
/// a vertex, that size times the number of vertices is the buffer's length,
/// and the attributes follow one another in rising slots without overlap.
pub open spec fn laid_out(length: nat, attributes: Seq<VertexAttribute>, vertices: nat) -> bool {
    &&& forall|k: int|
        0 <= k < attributes.len() ==> (#[trigger] attributes[k]).fits() && attributes[k].stride
            * vertices == length
    &&& forall|j: int, k: int|
        0 <= j < k < attributes.len() ==> (#[trigger] attributes[j]).index < (
        #[trigger] attributes[k]).index && attributes[j].offset + attributes[j].components
            <= attributes[k].offset
}

/// The commands that describe and switch on each attribute in turn: for
/// every attribute its description, then the command that enables its slot.
pub open spec fn attribute_commands<T>(attributes: Seq<VertexAttribute>) -> Seq<CommandView<T>>
    decreases attributes.len(),
{
    if attributes.len() == 0 {
        Seq::empty()
    } else {
        attribute_commands::<T>(attributes.drop_last()) + seq![
            CommandView::VertexAttribPointer { attribute: attributes.last() },
            CommandView::EnableVertexAttribArray { index: attributes.last().index },
        ]
    }
}

/// The upload sequence: bind the array and the buffer, fill the buffer,
/// describe the attributes, and bind nothing again.
pub open spec fn upload_sequence<T>(
    array: u32,
    buffer: u32,
    data: Seq<T>,
    attributes: Seq<VertexAttribute>,
) -> Seq<CommandView<T>> {
    seq![
        CommandView::BindVertexArray { array },
        CommandView::BindBuffer { buffer },
        CommandView::BufferData { data },
    ] + attribute_commands(attributes) + seq![
        CommandView::BindBuffer { buffer: 0 },
        CommandView::BindVertexArray { array: 0 },
    ]
}

/// The draw sequence: activate the program, bind the array, draw, unbind.
pub open spec fn draw_sequence<T>(program: u32, array: u32, mode: Primitive, count: i32) -> Seq<
    CommandView<T>,
> {
    seq![
        CommandView::UseProgram { program },
        CommandView::BindVertexArray { array },
        CommandView::DrawArrays { mode, first: 0, count },
        CommandView::BindVertexArray { array: 0 },
    ]
}

/// The release sequence: the array, then the buffer.
pub open spec fn release_sequence<T>(array: u32, buffer: u32) -> Seq<CommandView<T>> {
    seq![CommandView::DeleteVertexArray { array }, CommandView::DeleteBuffer { buffer }]
}

/// Builds the upload sequence for `data` laid out by `attributes`.
pub fn upload<T>(handles: &BufferHandles, data: Vec<T>, attributes: &Vec<VertexAttribute>) -> (commands:
    Vec<Command<T>>)
    ensures
        views(commands@) == upload_sequence(
            handles.array(),
            handles.buffer(),
            data@,
            attributes@,
        ),
{
    let mut commands: Vec<Command<T>> = Vec::new();
    commands.push(Command::BindVertexArray { array: handles.vertex_array() });
    commands.push(Command::BindBuffer { buffer: handles.vertex_buffer() });
    commands.push(Command::BufferData { data });
    let ghost head = views(commands@);
    proof {
        assert(attributes@.take(0) =~= Seq::<VertexAttribute>::empty());
        assert(head =~= seq![
            CommandView::BindVertexArray { array: handles.array() },
            CommandView::BindBuffer { buffer: handles.buffer() },
            CommandView::BufferData { data: data@ },
        ]);
    }
    let mut i: usize = 0;
    while i < attributes.len()
        invariant
            i <= attributes.len(),
            views(commands@) == head + attribute_commands::<T>(attributes@.take(i as int)),
        decreases attributes.len() - i,
    {
        let attribute = attributes[i];
        let ghost done = views(commands@);
        commands.push(Command::VertexAttribPointer { attribute });
        commands.push(Command::EnableVertexAttribArray { index: attribute.index });
        proof {
            let before = attributes@.take(i as int);
            let after = attributes@.take(i + 1);
            assert(after.drop_last() =~= before);
            assert(after.last() == attribute);
            let pair = seq![
                CommandView::<T>::VertexAttribPointer { attribute },
                CommandView::<T>::EnableVertexAttribArray { index: attribute.index },
            ];
            assert(attribute_commands::<T>(after) == attribute_commands::<T>(before) + pair);
            assert(views(commands@) =~= done + pair);
            assert(done + pair =~= head + (attribute_commands::<T>(before) + pair));
        }
        i += 1;
    }
    proof {
        assert(attributes@.take(i as int) =~= attributes@);
    }
    let ghost body = views(commands@);
    commands.push(Command::BindBuffer { buffer: 0 });
    commands.push(Command::BindVertexArray { array: 0 });
    proof {
        assert(views(commands@) =~= body + seq![
            CommandView::BindBuffer { buffer: 0 },
            CommandView::BindVertexArray { array: 0 },
        ]);
        assert(views(commands@) =~= upload_sequence(
            handles.array(),
            handles.buffer(),
            data@,
            attributes@,
        ));
    }
    commands
}

/// Builds the draw sequence.
pub fn draw_arrays<T>(program: u32, handles: &BufferHandles, mode: Primitive, count: i32) -> (commands:
    Vec<Command<T>>)
    ensures
        views(commands@) == draw_sequence::<T>(program, handles.array(), mode, count),
{
    let mut commands: Vec<Command<T>> = Vec::new();
    commands.push(Command::UseProgram { program });
    commands.push(Command::BindVertexArray { array: handles.vertex_array() });
    commands.push(Command::DrawArrays { mode, first: 0, count });
    commands.push(Command::BindVertexArray { array: 0 });
    proof {
        assert(views(commands@) =~= draw_sequence::<T>(program, handles.array(), mode, count));
    }
    commands
}

/// Gives the pair up and builds the release sequence for it.
pub fn release<T>(handles: BufferHandles) -> (commands: Vec<Command<T>>)
    ensures
        views(commands@) == release_sequence::<T>(handles.array(), handles.buffer()),
{
    let mut commands: Vec<Command<T>> = Vec::new();
    commands.push(Command::DeleteVertexArray { array: handles.vertex_array() });
    commands.push(Command::DeleteBuffer { buffer: handles.vertex_buffer() });
    proof {
        assert(views(commands@) =~= release_sequence::<T>(handles.array(), handles.buffer()));
    }
    commands
}

} // verus!
