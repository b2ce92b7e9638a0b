//! The simplified x86-64 cursor state: frame-pointer-based unwinding over
//! the two registers RIP and RSP.

use vstd::prelude::*;
use vstd::wrapping::usize_specs;

use crate::cursor::state::CfaRule;
use crate::cursor::state::RegisterRule;
use crate::cursor::state::UnwindRow;
use crate::cursor::state::UnwindRowModel;
use crate::ErrorKind;
use crate::UnwindError;

verus! {

/// The DWARF x86-64 register number of the stack pointer.
pub const STACK_POINTER_IDX: u16 = 7;

/// The DWARF x86-64 register number of the return address.
pub const RETURN_ADDRESS_IDX: u16 = 16;

/// How a register value of the caller's frame is obtained: either the value
/// itself, or the address of the stack word that holds it, which the caller
/// of the library reads.
#[derive(Debug, Clone, Copy, PartialEq, Eq, Structural)]
pub enum RegisterRecovery {
    /// The recovered value itself.
    Value(usize),
    /// The value is the machine word at this address.
    ReadMemory(usize),
}

/// One planned step of the cursor: the stack pointer after the step, and how
/// the new program counter is obtained.
#[derive(Debug, Clone, Copy, PartialEq, Eq, Structural)]
pub struct StepPlan {
    /// The canonical frame address, which becomes the new stack pointer.
    pub new_rsp: usize,
    /// How the new program counter is obtained.
    pub rip: RegisterRecovery,
}

/// The frame-pointer-based x86-64 state: only RIP and RSP are live.
#[derive(Debug, Clone, Copy, PartialEq, Eq, Structural)]
pub struct FramePointerBasedState {
    /// The program counter.
    pub rip: usize,
    /// The stack pointer.
    pub rsp: usize,
}

impl FramePointerBasedState {
    /// Construct the state from captured register values.
    pub fn new(rip: usize, rsp: usize) -> (r: FramePointerBasedState)
        ensures
            r.rip == rip,
            r.rsp == rsp,
    {
        FramePointerBasedState { rip, rsp }
    }

    /// The current program counter.
    pub fn get_program_counter(&self) -> (r: usize)
        ensures
            r == self.rip,
    {
        self.rip
    }

    /// The current value of register `reg`; only the stack pointer can be
    /// retrieved in this state.
    pub fn get_register(&self, reg: u16) -> (r: Result<usize, UnwindError>)
        ensures
            reg == STACK_POINTER_IDX ==> r == Ok::<usize, UnwindError>(self.rsp),
            reg != STACK_POINTER_IDX ==> (r matches Err(e) && e.spec_kind()
                == ErrorKind::NotSupported),
    {
        if reg == STACK_POINTER_IDX {
            Ok(self.rsp)
        } else {
            Err(
                UnwindError::NotSupported(
                    "only RSP can be retrieved in frame pointer based state".to_string(),
                ),
            )
        }
    }

    /// The canonical frame address the row yields for this state, when its
    /// rule is an offset from the stack pointer: `rsp + offset`, wrapping to
    /// the machine word.
    pub open spec fn spec_cfa_value(self, row: UnwindRowModel) -> Option<usize> {
        match row.cfa {
            CfaRule::RegisterAndOffset { register, offset } => if register == STACK_POINTER_IDX {
                Some(usize_specs::wrapping_add_signed(self.rsp, offset as isize))
            } else {
                None
            },
            CfaRule::Expression => None,
        }
    }

    /// Compute the canonical frame address of `row`: derivable only from an
    /// offset rule on the stack pointer in this state.
    pub fn get_cfa(&self, row: &UnwindRow) -> (r: Result<usize, UnwindError>)
        ensures
            match self.spec_cfa_value(row@) {
                Some(cfa) => r == Ok::<usize, UnwindError>(cfa),
                None => r matches Err(e) && e.spec_kind() == ErrorKind::NotSupported,
            },
    {
        match row.cfa {
            CfaRule::RegisterAndOffset { register, offset } => {
                if register == STACK_POINTER_IDX {
                    Ok(self.rsp.wrapping_add_signed(offset as isize))
                } else {
                    Err(
                        UnwindError::NotSupported(
                            "CFA value is only derivable from RSP in frame pointer based state".to_string(),
                        ),
                    )
                }
            },
            CfaRule::Expression => {
                Err(
                    UnwindError::NotSupported(
                        "CFA expression is not supported in frame pointer based state".to_string(),
                    ),
                )
            },
        }
    }

    /// What recovering register `reg` by `row`'s rule yields in this state:
    /// `Err` carries the kind of the error the recovery fails with.
    pub open spec fn spec_recover(self, reg: u16, row: UnwindRowModel) -> Result<
        RegisterRecovery,
        ErrorKind,
    > {
        match self.spec_cfa_value(row) {
            None => Err(ErrorKind::NotSupported),
            Some(cfa) => match row.rule_for(reg) {
                RegisterRule::Undefined => Err(ErrorKind::UnwindEnded),
                RegisterRule::SameValue => if reg == STACK_POINTER_IDX {
                    Ok(RegisterRecovery::Value(self.rsp))
                } else {
                    Err(ErrorKind::NotSupported)
                },
                RegisterRule::Offset(o) => Ok(
                    RegisterRecovery::ReadMemory(usize_specs::wrapping_add_signed(cfa, o as isize)),
                ),
                RegisterRule::ValOffset(o) => Ok(
                    RegisterRecovery::Value(usize_specs::wrapping_add_signed(cfa, o as isize)),
                ),
                RegisterRule::Register(t) => if t == STACK_POINTER_IDX {
                    Ok(RegisterRecovery::Value(self.rsp))
                } else {
                    Err(ErrorKind::NotSupported)
                },
                RegisterRule::Expression => Err(ErrorKind::NotSupported),
                RegisterRule::ValExpression => Err(ErrorKind::NotSupported),
                RegisterRule::Architectural => Err(ErrorKind::NotSupported),
                RegisterRule::Constant(c) => Ok(RegisterRecovery::Value(c as usize)),
            },
        }
    }

    /// Apply `row`'s rule for register `reg`: either the recovered value or
    /// the address of the stack word holding it. The `Undefined` rule ends
    /// the walk with `UnwindEnded`; rules beyond the simplified state fail
    /// with `NotSupported`.
    pub fn recover_register(&self, reg: u16, row: &UnwindRow) -> (r: Result<
        RegisterRecovery,
        UnwindError,
    >)
        ensures
            match self.spec_recover(reg, row@) {
                Ok(v) => r == Ok::<RegisterRecovery, UnwindError>(v),
                Err(k) => r matches Err(e) && e.spec_kind() == k,
            },
    {
        let cfa = match self.get_cfa(row) {
            Ok(c) => c,
            Err(e) => {
                return Err(e);
            },
        };
        match row.register(reg) {
            RegisterRule::Undefined => Err(UnwindError::UnwindEnded),
            RegisterRule::SameValue => match self.get_register(reg) {
                Ok(v) => Ok(RegisterRecovery::Value(v)),
                Err(e) => Err(e),
            },
            RegisterRule::Offset(o) => Ok(
                RegisterRecovery::ReadMemory(cfa.wrapping_add_signed(o as isize)),
            ),
            RegisterRule::ValOffset(o) => Ok(
                RegisterRecovery::Value(cfa.wrapping_add_signed(o as isize)),
            ),
            RegisterRule::Register(t) => match self.get_register(t) {
                Ok(v) => Ok(RegisterRecovery::Value(v)),
                Err(e) => Err(e),
            },
            RegisterRule::Expression => Err(
                UnwindError::NotSupported(
                    "register recovery by expression is not supported in frame pointer based state".to_string(),
                ),
            ),
            RegisterRule::ValExpression => Err(
                UnwindError::NotSupported(
                    "register recovery by expression is not supported in frame pointer based state".to_string(),
                ),
            ),
            RegisterRule::Architectural => Err(
                UnwindError::NotSupported("target register recovery is architectural".to_string()),
            ),
            RegisterRule::Constant(c) => Ok(RegisterRecovery::Value(c as usize)),
        }
    }

    /// What planning a step by `row` yields in this state.
    pub open spec fn spec_plan(self, row: UnwindRowModel) -> Result<StepPlan, ErrorKind> {
        match self.spec_recover(RETURN_ADDRESS_IDX, row) {
            Err(k) => Err(k),
            Ok(rip) => match self.spec_cfa_value(row) {
                None => Err(ErrorKind::NotSupported),
                Some(cfa) => Ok(StepPlan { new_rsp: cfa, rip }),
            },
        }
    }

    /// Plan one step by `row`: recover the return address, which becomes the
    /// new program counter, and the canonical frame address, which becomes
    /// the new stack pointer. Nothing is mutated; `commit_step` applies the
    /// plan once the caller has read the word a `ReadMemory` recovery names.
    pub fn plan_step(&self, row: &UnwindRow) -> (r: Result<StepPlan, UnwindError>)
        ensures
            match self.spec_plan(row@) {
                Ok(p) => r == Ok::<StepPlan, UnwindError>(p),
                Err(k) => r matches Err(e) && e.spec_kind() == k,
            },
    {
        let rip = match self.recover_register(RETURN_ADDRESS_IDX, row) {
            Ok(v) => v,
            Err(e) => {
                return Err(e);
            },
        };
        let new_rsp = match self.get_cfa(row) {
            Ok(c) => c,
            Err(e) => {
                return Err(e);
            },
        };
        Ok(StepPlan { new_rsp, rip })
    }

    /// Commit a step: assign the new program counter and stack pointer,
    /// all or nothing.
    pub fn commit_step(&mut self, new_rip: usize, new_rsp: usize)
        ensures
            final(self).rip == new_rip,
            final(self).rsp == new_rsp,
    {
        self.rip = new_rip;
        self.rsp = new_rsp;
    }

    /// Stack growth: when a step is planned by a frame-pointer rule whose
    /// offset is positive and does not wrap the address space, the planned
    /// stack pointer lies strictly above the current one — the caller's
    /// frame sits at higher addresses on x86-64.
    pub proof fn lemma_step_monotonic(self, row: UnwindRowModel, plan: StepPlan)
        requires
            self.spec_plan(row) == Ok::<StepPlan, ErrorKind>(plan),
            row.cfa matches CfaRule::RegisterAndOffset { register, offset } && register
                == STACK_POINTER_IDX && 0 < offset <= isize::MAX && self.rsp + offset
                <= usize::MAX,
        ensures
            plan.new_rsp > self.rsp,
    {
        if let CfaRule::RegisterAndOffset { register, offset } = row.cfa {
            assert(plan.new_rsp == usize_specs::wrapping_add_signed(self.rsp, offset as isize));
        }
    }

    /// Termination at the top of the stack: planning a step fails with
    /// `UnwindEnded` exactly when the frame address is computable and the
    /// row's rule for the return address is `Undefined`.
    pub proof fn lemma_undefined_ends(self, row: UnwindRowModel)
        ensures
            (self.spec_plan(row) == Err::<StepPlan, ErrorKind>(ErrorKind::UnwindEnded)) <==> (
            self.spec_cfa_value(row) is Some && row.rule_for(RETURN_ADDRESS_IDX)
                is Undefined),
    {
    }
}

} // verus!

