//! Who owns which shader program.
//!
//! A program may draw many shapes. The pool counts, for each program, how
//! many owners it has, and says when the last one is gone: then, and only
//! then, the program is released.

use vstd::prelude::*;
use std::collections::HashMap;
use crate::command::{Command, CommandView};
use crate::shader::Shader;

verus! {

broadcast use vstd::std_specs::hash::group_hash_axioms;

/// The number of owners of `program` in `owners`: 0 for a program that the
/// map does not hold.
pub open spec fn count_in(owners: Map<u32, usize>, program: u32) -> nat {
    if owners.contains_key(program) {
        owners[program] as nat
    } else {
        0
    }
}

/// The map after one owner of `program` has let go.
pub open spec fn released(owners: Map<u32, usize>, program: u32) -> Map<u32, usize> {
    if !owners.contains_key(program) {
        owners
    } else if owners[program] <= 1 {
        owners.remove(program)
    } else {
        owners.insert(program, (owners[program] - 1) as usize)
    }
}

/// The owner of `program` that lets go is its last one.
pub open spec fn last_owner(owners: Map<u32, usize>, program: u32) -> bool {
    owners.contains_key(program) && owners[program] <= 1
}

/// The map after `program` has got one more owner, if it could.
pub open spec fn acquired(owners: Map<u32, usize>, program: u32) -> Map<u32, usize> {
    if can_acquire(owners, program) {
        owners.insert(program, (owners[program] + 1) as usize)
    } else {
        owners
    }
}

/// `program` is alive and its count can still grow.
pub open spec fn can_acquire(owners: Map<u32, usize>, program: u32) -> bool {
    owners.contains_key(program) && owners[program] < usize::MAX
}

/// No program in the map is without an owner.
pub open spec fn all_owned(owners: Map<u32, usize>) -> bool {
    forall|program: u32| owners.contains_key(program) ==> #[trigger] owners[program] >= 1
}

/// The programs that are alive, each with the number of its owners.
pub struct ShaderPool {
    owners: HashMap<u32, usize>,
}

impl View for ShaderPool {
    type V = Map<u32, usize>;

    closed spec fn view(&self) -> Map<u32, usize> {
        self.owners@
    }
}

impl ShaderPool {
    /// Every program in the pool has an owner. This holds of a new pool,
    /// and every operation keeps it.
    pub open spec fn wf(&self) -> bool {
        all_owned(self@)
    }

    /// The number of owners of `program`.
    pub open spec fn count(&self, program: u32) -> nat {
        count_in(self@, program)
    }

    /// A pool without programs.
    pub fn new() -> (pool: Self)
        ensures
            pool@ == Map::<u32, usize>::empty(),
            pool.wf(),
    {
        ShaderPool { owners: HashMap::new() }
    }

    /// The number of owners of `shader`; 0 if it is not alive.
    pub fn owners(&self, shader: Shader) -> (count: usize)
        ensures
            count == self.count(shader.program()),
    {
        let program = shader.id();
        match self.owners.get(&program) {
            Some(count) => *count,
            None => 0,
        }
    }

    /// Whether `shader` is alive.
    pub fn contains(&self, shader: Shader) -> (alive: bool)
        ensures
            alive == self@.contains_key(shader.program()),
    {
        let program = shader.id();
        self.owners.get(&program).is_some()
    }

    /// Takes a new program in, with the caller as its first owner. A
    /// program that is already alive is refused.
    pub fn register(&mut self, shader: Shader) -> (taken: bool)
        ensures
            taken == !old(self)@.contains_key(shader.program()),
            taken ==> final(self)@ == old(self)@.insert(shader.program(), 1),
            !taken ==> final(self)@ == old(self)@,
            old(self).wf() ==> final(self).wf(),
    {
        let program = shader.id();
        if self.owners.get(&program).is_some() {
            false
        } else {
            self.owners.insert(program, 1);
            true
        }
    }

    /// Gives `shader` one more owner. Refused if the program is not alive,
    /// or if its owners can no longer be counted.
    pub fn acquire(&mut self, shader: Shader) -> (taken: bool)
        ensures
            taken == can_acquire(old(self)@, shader.program()),
            final(self)@ == acquired(old(self)@, shader.program()),
            old(self).wf() ==> final(self).wf(),
    {
        let program = shader.id();
        let count = match self.owners.get(&program) {
            Some(count) => *count,
            None => usize::MAX,
        };
        if count == usize::MAX {
            false
        } else {
            self.owners.insert(program, count + 1);
            true
        }
    }

    /// Takes one owner of `shader` away. If it was the last, the program
    /// leaves the pool and the command that releases it is returned.
    pub fn release<T>(&mut self, shader: Shader) -> (command: Option<Command<T>>)
        ensures
            final(self)@ == released(old(self)@, shader.program()),
            command is Some <==> last_owner(old(self)@, shader.program()),
            command matches Some(c) ==> c@ == (CommandView::<T>::DeleteProgram {
                program: shader.program(),
            }),
            old(self).wf() ==> final(self).wf(),
    {
        let program = shader.id();
        match self.owners.get(&program) {
            None => None,
            Some(count) => {
                let count = *count;
                if count <= 1 {
                    self.owners.remove(&program);
                    assert(self.owners@ =~= released(old(self)@, program));
                    Some(Command::DeleteProgram { program })
                } else {
                    self.owners.insert(program, count - 1);
                    None
                }
            },
        }
    }
}

/// A program is released once: when its last owner has let go, the program
/// is gone, nobody can become its owner again, and letting go of it again
/// releases nothing.
pub proof fn lemma_released_once(owners: Map<u32, usize>, program: u32)
    requires
        all_owned(owners),
        last_owner(owners, program),
    ensures
        !released(owners, program).contains_key(program),
        !can_acquire(released(owners, program), program),
        !last_owner(released(owners, program), program),
        released(released(owners, program), program) == released(owners, program),
{
}

/// A program with `n` owners is released by the `n`-th owner who lets go,
/// and by none before: as long as another owner is left, letting go only
/// lowers the count by one.
pub proof fn lemma_release_counts_down(owners: Map<u32, usize>, program: u32)
    requires
        all_owned(owners),
    ensures
        all_owned(released(owners, program)),
        count_in(released(owners, program), program) == if count_in(owners, program) == 0 {
            0
        } else {
            count_in(owners, program) - 1
        },
        last_owner(owners, program) <==> count_in(owners, program) == 1,
        forall|other: u32|
            other != program ==> count_in(released(owners, program), other) == count_in(
                owners,
                other,
            ),
{
}

/// Becoming an owner and letting go again leaves the pool as it was.
pub proof fn lemma_acquire_then_release(owners: Map<u32, usize>, program: u32)
    requires
        all_owned(owners),
        can_acquire(owners, program),
    ensures
        !last_owner(acquired(owners, program), program),
        released(acquired(owners, program), program) == owners,
{
    assert(released(acquired(owners, program), program) =~= owners);
}

} // verus!
