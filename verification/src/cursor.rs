//! The unwind cursor's state and per-step decisions.
//!
//! The cursor walks the stack by, for each frame, resolving the unwind-table
//! row of the current program counter and stepping the machine state by the
//! row's rules. Reading a word of stack memory is the one thing the library
//! leaves to its caller: a step is planned here as plain values, and the
//! caller performs the read the plan names.

use vstd::prelude::*;

pub mod state;
pub mod x86_64;

use crate::cursor::state::UnwindRow;
use crate::cursor::x86_64::FramePointerBasedState;
use crate::ErrorKind;
use crate::GlobalContext;
use crate::SymbolInfo;
use crate::UnwindError;

verus! {

/// The minimal per-frame machine state on x86-64: the program counter and
/// the stack pointer.
#[derive(Debug, Clone, Copy, PartialEq, Eq, Structural)]
pub struct FrameState {
    /// The program counter.
    pub rip: usize,
    /// The stack pointer.
    pub rsp: usize,
}

impl FrameState {
    /// Construct the state from captured register values.
    pub fn new(rip: usize, rsp: usize) -> (r: FrameState)
        ensures
            r.rip == rip,
            r.rsp == rsp,
    {
        FrameState { rip, rsp }
    }

    /// The current program counter.
    pub fn get_program_counter(&self) -> (r: usize)
        ensures
            r == self.rip,
    {
        self.rip
    }

    /// The current stack pointer.
    pub fn get_frame_pointer(&self) -> (r: usize)
        ensures
            r == self.rsp,
    {
        self.rsp
    }
}

/// Resolve the unwind-table row for the current program counter: locate the
/// owning image, convert the counter into the image's static address space,
/// and look the row up in the image's unwind sections. A counter outside
/// every image ends the walk with `UnknownProgramCounter`.
pub fn setup_unwind_info(g: &GlobalContext, pc: usize) -> (r: Result<UnwindRow, UnwindError>)
    ensures
        !g.has_owner(pc) ==> (r matches Err(e) && e matches UnwindError::UnknownProgramCounter(a)
            && a == pc),
        g.has_owner(pc) ==> ({
            let im = g.images()[g.owner_index(pc)];
            match r {
                Ok(row) => im.spec_unwind_row((pc - im.bias) as u64) == Some(row@),
                Err(e) => im.spec_unwind_row((pc - im.bias) as u64) is None && e.spec_kind()
                    == ErrorKind::GimliError,
            }
        }),
{
    proof {
        use_type_invariant(g);
    }
    match g.find_image(pc) {
        None => Err(UnwindError::UnknownProgramCounter(pc)),
        Some(img) => {
            proof {
                let k = choose|i: int| 0 <= i < g.images().len() && g.images()[i] == *img;
                assert(g.images()[k].owns(pc));
                assert(g.has_owner(pc));
                g.lemma_unique_owner(pc, k, g.owner_index(pc));
                assert(g.images()[g.owner_index(pc)] == *img);
                assert(img.wf());
            }
            let address = pc - img.bias;
            img.unwind_row_for(address as u64)
        },
    }
}

/// The symbol record of the current program counter: a thin query over the
/// registry.
pub fn get_sym_info(g: &GlobalContext, state: &FramePointerBasedState) -> (r: SymbolInfo)
    ensures
        r@ == g.spec_resolve(state.rip),
{
    g.resolve_symbol(state.get_program_counter())
}

} // verus!
