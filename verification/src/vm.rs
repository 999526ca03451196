//! The virtual machine: executes a compiled instruction sequence against an
//! explicit operand stack and a stack of call frames, one frame per active
//! function activation.
//!
//! The machine's behaviour is defined by the pure one-step transition
//! function [`step_model`] and its iteration [`run_model`]; the executable
//! machine's contracts state that it computes exactly those transitions.
//!
//! Conventions, held invariant everywhere:
//! - Locals live on the operand stack, addressed as `base_pointer + slot`.
//! - On a call, the callee sits directly below its arguments; on return, the
//!   operand stack is cut back below the callee slot and the return value
//!   takes its place.
//! - Storing into a slot (`SetGlobal`, `SetLocal`) reads the top of the stack
//!   without popping it, so an assignment leaves its value behind.
//! - The result of a finished run is the value most recently discarded by
//!   `Pop` (the value of the last expression statement), or the value of a
//!   top-level `Return`.
//! - The top-level frame is never popped by normal completion: running off
//!   the end of the unit halts with the frame stack still holding it.
use vstd::prelude::*;

use crate::code::{obj_equals, Function, Instruction, Object, ObjectModel};
use crate::codegen::consts_model;

verus! {

/// Why a run was aborted. Every fault is terminal: the language has no
/// construct that catches one.
#[derive(Debug, Clone, Copy, PartialEq, Eq, Structural)]
pub enum RuntimeFault {
    /// An operand had the wrong variant for the instruction, or a call's
    /// callee was not a function.
    TypeMismatch,
    /// Integer division or remainder by zero.
    DivisionByZero,
    /// A function was called with a number of arguments different from its
    /// declared parameter count.
    ArityMismatch,
    /// A global slot was read before anything was stored in it.
    UninitializedGlobal,
    /// The operand stack held fewer values than the instruction consumes, or
    /// a local slot lay outside the stack.
    StackUnderflow,
    /// An array was indexed outside its bounds, or a constant-pool index lay
    /// outside the pool.
    IndexOutOfBounds,
}

/// One function activation: the code it runs, its instruction pointer, and
/// the operand-stack index at which its locals begin.
#[derive(Debug)]
pub struct Frame {
    pub instructions: Vec<Instruction>,
    pub ip: usize,
    pub base_pointer: usize,
}

/// The mathematical value of a [`Frame`].
pub ghost struct FrameModel {
    pub code: Seq<Instruction>,
    pub ip: nat,
    pub base: nat,
}

impl View for Frame {
    type V = FrameModel;

    open spec fn view(&self) -> FrameModel {
        FrameModel {
            code: self.instructions@,
            ip: self.ip as nat,
            base: self.base_pointer as nat,
        }
    }
}

/// The machine's whole state, mathematically.
pub ghost struct VmModel {
    pub consts: Seq<ObjectModel>,
    pub globals: Seq<Option<ObjectModel>>,
    pub stack: Seq<ObjectModel>,
    pub frames: Seq<FrameModel>,
    pub last_popped: ObjectModel,
}

/// What one fetch-execute step does: continue in a new state, halt with the
/// run's result, or abort with a fault, the faulting instruction's offset and
/// the call-frame depth at fault time.
pub ghost enum StepModel {
    Next(VmModel),
    Halt(ObjectModel),
    Fault { kind: RuntimeFault, ip: nat, depth: nat },
}

/// A run after at most `fuel` steps: halted, faulted, or still running.
pub ghost enum RunModel {
    Halted(ObjectModel),
    Faulted { kind: RuntimeFault, ip: nat, depth: nat },
    Running(VmModel),
}

/// The state a run starts from: one frame over the unit's code, empty stack,
/// empty globals, `Null` as the result of an empty run.
pub open spec fn init_vm_model(code: Seq<Instruction>, consts: Seq<ObjectModel>) -> VmModel {
    VmModel {
        consts,
        globals: Seq::empty(),
        stack: Seq::empty(),
        frames: seq![FrameModel { code, ip: 0, base: 0 }],
        last_popped: ObjectModel::Null,
    }
}

/// The state with the top frame's instruction pointer set to `ip`.
pub open spec fn set_ip(vm: VmModel, ip: nat) -> VmModel
    recommends
        vm.frames.len() >= 1,
{
    VmModel {
        consts: vm.consts,
        globals: vm.globals,
        stack: vm.stack,
        frames: vm.frames.update(
            vm.frames.len() - 1,
            FrameModel { code: vm.frames.last().code, ip, base: vm.frames.last().base },
        ),
        last_popped: vm.last_popped,
    }
}

/// The state with `value` pushed onto the operand stack.
pub open spec fn push_value(vm: VmModel, value: ObjectModel) -> VmModel {
    VmModel {
        consts: vm.consts,
        globals: vm.globals,
        stack: vm.stack.push(value),
        frames: vm.frames,
        last_popped: vm.last_popped,
    }
}

/// The state with the operand stack replaced.
pub open spec fn with_stack(vm: VmModel, stack: Seq<ObjectModel>) -> VmModel {
    VmModel {
        consts: vm.consts,
        globals: vm.globals,
        stack,
        frames: vm.frames,
        last_popped: vm.last_popped,
    }
}

/// The globals table grown on demand so that slot `idx` holds `v`; slots the
/// growth passes over stay unset.
pub open spec fn grow_set(globals: Seq<Option<ObjectModel>>, idx: int, v: ObjectModel) -> Seq<
    Option<ObjectModel>,
> {
    let n = if idx + 1 > globals.len() {
        idx + 1
    } else {
        globals.len() as int
    };
    Seq::new(
        n as nat,
        |i: int|
            if i == idx {
                Some(v)
            } else if i < globals.len() {
                globals[i]
            } else {
                None
            },
    )
}

/// Truncated 64-bit division, wrapping on the one overflowing pair
/// (`i64::MIN / -1`).
pub open spec fn vm_div(a: i64, b: i64) -> i64
    recommends
        b != 0,
{
    match a.checked_div(b) {
        Some(q) => q,
        None => i64::MIN,
    }
}

/// Truncated 64-bit remainder; the one overflowing pair (`i64::MIN % -1`)
/// yields 0.
pub open spec fn vm_rem(a: i64, b: i64) -> i64
    recommends
        b != 0,
{
    match a.checked_rem(b) {
        Some(r) => r,
        None => 0,
    }
}

/// The integer an arithmetic opcode computes, wrapping on overflow.
pub open spec fn arith_result(instr: Instruction, a: i64, b: i64) -> i64 {
    match instr {
        Instruction::Add => a.wrapping_add(b),
        Instruction::Sub => a.wrapping_sub(b),
        Instruction::Mul => a.wrapping_mul(b),
        Instruction::Div => vm_div(a, b),
        Instruction::Mod => vm_rem(a, b),
        _ => arbitrary(),
    }
}

/// Returning `value` out of the current frame: the caller's stack is cut
/// back below the callee slot and the value takes that slot's place;
/// returning from the outermost frame halts the run with the value.
pub open spec fn return_model(vm: VmModel, value: ObjectModel, fip: nat, depth: nat) -> StepModel
    recommends
        vm.frames.len() >= 1,
{
    if vm.frames.len() <= 1 {
        StepModel::Halt(value)
    } else {
        let base = vm.frames.last().base;
        let cut = if base >= 1 {
            (base - 1) as nat
        } else {
            0
        };
        if cut > vm.stack.len() {
            StepModel::Fault { kind: RuntimeFault::StackUnderflow, ip: fip, depth }
        } else {
            StepModel::Next(
                VmModel {
                    consts: vm.consts,
                    globals: vm.globals,
                    stack: vm.stack.take(cut as int).push(value),
                    frames: vm.frames.drop_last(),
                    last_popped: vm.last_popped,
                },
            )
        }
    }
}

/// What a two-operand opcode (arithmetic, comparison, boolean) does to an
/// already-advanced state `vm`: pop right then left, check the variants,
/// push the result. `fip` and `depth` are the faulting offset and frame
/// depth to report.
pub open spec fn binop_step_model(
    vm: VmModel,
    instr: Instruction,
    fip: nat,
    depth: nat,
) -> StepModel {
    if vm.stack.len() < 2 {
        StepModel::Fault { kind: RuntimeFault::StackUnderflow, ip: fip, depth }
    } else {
        let r = vm.stack.last();
        let l = vm.stack[vm.stack.len() - 2];
        let rest = vm.stack.take(vm.stack.len() - 2);
        match instr {
            Instruction::Add | Instruction::Sub | Instruction::Mul | Instruction::Div
                | Instruction::Mod => match (l, r) {
                (ObjectModel::Integer(a), ObjectModel::Integer(b)) => if (instr is Div || instr
                    is Mod) && b == 0 {
                    StepModel::Fault { kind: RuntimeFault::DivisionByZero, ip: fip, depth }
                } else {
                    StepModel::Next(
                        with_stack(vm, rest.push(ObjectModel::Integer(arith_result(instr, a, b)))),
                    )
                },
                _ => StepModel::Fault { kind: RuntimeFault::TypeMismatch, ip: fip, depth },
            },
            Instruction::Equal => StepModel::Next(
                with_stack(vm, rest.push(ObjectModel::Boolean(l == r))),
            ),
            Instruction::NotEqual => StepModel::Next(
                with_stack(vm, rest.push(ObjectModel::Boolean(l != r))),
            ),
            Instruction::LessThan | Instruction::GreaterThan => match (l, r) {
                (ObjectModel::Integer(a), ObjectModel::Integer(b)) => StepModel::Next(
                    with_stack(
                        vm,
                        rest.push(
                            ObjectModel::Boolean(
                                if instr is LessThan {
                                    a < b
                                } else {
                                    a > b
                                },
                            ),
                        ),
                    ),
                ),
                _ => StepModel::Fault { kind: RuntimeFault::TypeMismatch, ip: fip, depth },
            },
            Instruction::And | Instruction::Or => match (l, r) {
                (ObjectModel::Boolean(a), ObjectModel::Boolean(b)) => StepModel::Next(
                    with_stack(
                        vm,
                        rest.push(
                            ObjectModel::Boolean(
                                if instr is And {
                                    a && b
                                } else {
                                    a || b
                                },
                            ),
                        ),
                    ),
                ),
                _ => StepModel::Fault { kind: RuntimeFault::TypeMismatch, ip: fip, depth },
            },
            _ => arbitrary(),
        }
    }
}

/// What `Call(argc)` does to an already-advanced state: the callee and its
/// `argc` arguments occupy the top `argc + 1` slots, callee deepest. The new
/// frame's base points at the first argument; slots for locals beyond the
/// parameters are reserved as `Null`.
pub open spec fn call_step_model(vm: VmModel, argc: nat, fip: nat, depth: nat) -> StepModel {
    if vm.stack.len() < argc + 1 {
        StepModel::Fault { kind: RuntimeFault::StackUnderflow, ip: fip, depth }
    } else {
        match vm.stack[vm.stack.len() - argc - 1] {
            ObjectModel::Function(f) => if argc != f.num_parameters {
                StepModel::Fault { kind: RuntimeFault::ArityMismatch, ip: fip, depth }
            } else {
                let base = (vm.stack.len() - argc) as nat;
                let extra = if f.num_locals >= f.num_parameters {
                    (f.num_locals - f.num_parameters) as nat
                } else {
                    0
                };
                StepModel::Next(
                    VmModel {
                        consts: vm.consts,
                        globals: vm.globals,
                        stack: vm.stack + Seq::new(extra, |i: int| ObjectModel::Null),
                        frames: vm.frames.push(
                            FrameModel { code: f.instructions, ip: 0, base },
                        ),
                        last_popped: vm.last_popped,
                    },
                )
            },
            _ => StepModel::Fault { kind: RuntimeFault::TypeMismatch, ip: fip, depth },
        }
    }
}

/// One fetch-execute step of the machine.
pub open spec fn step_model(vm: VmModel) -> StepModel
    recommends
        vm.frames.len() >= 1,
{
    let fr = vm.frames.last();
    let depth = vm.frames.len();
    if fr.ip >= fr.code.len() {
        // The frame ran off the end of its code. For the top-level unit this
        // is normal completion; a function frame behaves as `return Null`
        // (compiled functions end in an explicit Return, so this is only
        // reachable with hand-made bytecode).
        if depth == 1 {
            StepModel::Halt(vm.last_popped)
        } else {
            return_model(vm, ObjectModel::Null, fr.ip, depth)
        }
    } else {
        let instr = fr.code[fr.ip as int];
        let fip = fr.ip;
        let vm1 = set_ip(vm, fr.ip + 1);
        match instr {
            Instruction::LoadConstant(idx) => if idx < vm.consts.len() {
                StepModel::Next(push_value(vm1, vm.consts[idx as int]))
            } else {
                StepModel::Fault { kind: RuntimeFault::IndexOutOfBounds, ip: fip, depth }
            },
            Instruction::Pop => if vm.stack.len() == 0 {
                StepModel::Fault { kind: RuntimeFault::StackUnderflow, ip: fip, depth }
            } else {
                StepModel::Next(
                    VmModel {
                        consts: vm1.consts,
                        globals: vm1.globals,
                        stack: vm1.stack.drop_last(),
                        frames: vm1.frames,
                        last_popped: vm1.stack.last(),
                    },
                )
            },
            Instruction::Add | Instruction::Sub | Instruction::Mul | Instruction::Div
                | Instruction::Mod | Instruction::Equal | Instruction::NotEqual
                | Instruction::LessThan | Instruction::GreaterThan | Instruction::And
                | Instruction::Or => binop_step_model(vm1, instr, fip, depth),
            Instruction::Not => if vm.stack.len() == 0 {
                StepModel::Fault { kind: RuntimeFault::StackUnderflow, ip: fip, depth }
            } else {
                match vm.stack.last() {
                    ObjectModel::Boolean(b) => StepModel::Next(
                        with_stack(
                            vm1,
                            vm1.stack.drop_last().push(ObjectModel::Boolean(!b)),
                        ),
                    ),
                    _ => StepModel::Fault { kind: RuntimeFault::TypeMismatch, ip: fip, depth },
                }
            },
            Instruction::Neg => if vm.stack.len() == 0 {
                StepModel::Fault { kind: RuntimeFault::StackUnderflow, ip: fip, depth }
            } else {
                match vm.stack.last() {
                    ObjectModel::Integer(a) => StepModel::Next(
                        with_stack(
                            vm1,
                            vm1.stack.drop_last().push(
                                ObjectModel::Integer((0i64).wrapping_sub(a)),
                            ),
                        ),
                    ),
                    _ => StepModel::Fault { kind: RuntimeFault::TypeMismatch, ip: fip, depth },
                }
            },
            Instruction::Jump(t) => StepModel::Next(set_ip(vm, t as nat)),
            Instruction::JumpNotTruthy(t) => if vm.stack.len() == 0 {
                StepModel::Fault { kind: RuntimeFault::StackUnderflow, ip: fip, depth }
            } else {
                match vm.stack.last() {
                    ObjectModel::Boolean(b) => {
                        let popped = with_stack(vm, vm.stack.drop_last());
                        if b {
                            StepModel::Next(set_ip(popped, fr.ip + 1))
                        } else {
                            StepModel::Next(set_ip(popped, t as nat))
                        }
                    },
                    _ => StepModel::Fault { kind: RuntimeFault::TypeMismatch, ip: fip, depth },
                }
            },
            Instruction::SetGlobal(idx) => if vm.stack.len() == 0 {
                StepModel::Fault { kind: RuntimeFault::StackUnderflow, ip: fip, depth }
            } else {
                StepModel::Next(
                    VmModel {
                        consts: vm1.consts,
                        globals: grow_set(vm1.globals, idx as int, vm1.stack.last()),
                        stack: vm1.stack,
                        frames: vm1.frames,
                        last_popped: vm1.last_popped,
                    },
                )
            },
            Instruction::GetGlobal(idx) => if idx < vm.globals.len() && vm.globals[idx as int]
                is Some {
                StepModel::Next(push_value(vm1, vm.globals[idx as int]->0))
            } else {
                StepModel::Fault { kind: RuntimeFault::UninitializedGlobal, ip: fip, depth }
            },
            Instruction::SetLocal(idx) => if vm.stack.len() == 0 {
                StepModel::Fault { kind: RuntimeFault::StackUnderflow, ip: fip, depth }
            } else {
                let slot = fr.base + idx;
                if slot >= vm.stack.len() {
                    StepModel::Fault { kind: RuntimeFault::StackUnderflow, ip: fip, depth }
                } else {
                    StepModel::Next(
                        with_stack(vm1, vm1.stack.update(slot as int, vm1.stack.last())),
                    )
                }
            },
            Instruction::GetLocal(idx) => {
                let slot = fr.base + idx;
                if slot >= vm.stack.len() {
                    StepModel::Fault { kind: RuntimeFault::StackUnderflow, ip: fip, depth }
                } else {
                    StepModel::Next(push_value(vm1, vm.stack[slot as int]))
                }
            },
            Instruction::Call(argc) => call_step_model(vm1, argc as nat, fip, depth),
            Instruction::Return => if vm.stack.len() == 0 {
                StepModel::Fault { kind: RuntimeFault::StackUnderflow, ip: fip, depth }
            } else {
                return_model(with_stack(vm1, vm1.stack.drop_last()), vm.stack.last(), fip, depth)
            },
            Instruction::Index => if vm.stack.len() < 2 {
                StepModel::Fault { kind: RuntimeFault::StackUnderflow, ip: fip, depth }
            } else {
                let idx = vm.stack.last();
                let arr = vm.stack[vm.stack.len() - 2];
                let rest = vm.stack.take(vm.stack.len() - 2);
                match (arr, idx) {
                    (ObjectModel::Array(items), ObjectModel::Integer(i)) => if 0 <= i < items.len() {
                        StepModel::Next(with_stack(vm1, rest.push(items[i as int])))
                    } else {
                        StepModel::Fault {
                            kind: RuntimeFault::IndexOutOfBounds,
                            ip: fip,
                            depth,
                        }
                    },
                    _ => StepModel::Fault { kind: RuntimeFault::TypeMismatch, ip: fip, depth },
                }
            },
            Instruction::SetIndex => if vm.stack.len() < 3 {
                StepModel::Fault { kind: RuntimeFault::StackUnderflow, ip: fip, depth }
            } else {
                let v = vm.stack.last();
                let idx = vm.stack[vm.stack.len() - 2];
                let arr = vm.stack[vm.stack.len() - 3];
                let rest = vm.stack.take(vm.stack.len() - 3);
                match (arr, idx) {
                    (ObjectModel::Array(items), ObjectModel::Integer(i)) => if 0 <= i < items.len() {
                        StepModel::Next(
                            with_stack(
                                vm1,
                                rest.push(ObjectModel::Array(items.update(i as int, v))),
                            ),
                        )
                    } else {
                        StepModel::Fault {
                            kind: RuntimeFault::IndexOutOfBounds,
                            ip: fip,
                            depth,
                        }
                    },
                    _ => StepModel::Fault { kind: RuntimeFault::TypeMismatch, ip: fip, depth },
                }
            },
        }
    }
}

/// Iterating the step function for at most `fuel` steps.
pub open spec fn run_model(vm: VmModel, fuel: nat) -> RunModel
    decreases fuel,
{
    if fuel == 0 {
        RunModel::Running(vm)
    } else {
        match step_model(vm) {
            StepModel::Next(vm2) => run_model(vm2, (fuel - 1) as nat),
            StepModel::Halt(v) => RunModel::Halted(v),
            StepModel::Fault { kind, ip, depth } => RunModel::Faulted { kind, ip, depth },
        }
    }
}

/// What one executable step reported.
#[derive(Debug)]
pub enum StepOutcome {
    /// The machine took a transition and can keep stepping.
    Running,
    /// Normal completion; carries the run's result.
    Halted(Object),
    /// A terminal fault, with the faulting instruction's offset and the
    /// call-frame depth at fault time.
    Faulted { kind: RuntimeFault, ip: usize, depth: usize },
}

/// What a bounded executable run reported.
#[derive(Debug)]
pub enum RunOutcome {
    /// Normal completion; carries the run's result.
    Halted(Object),
    /// A terminal fault, with the faulting instruction's offset and the
    /// call-frame depth at fault time.
    Faulted { kind: RuntimeFault, ip: usize, depth: usize },
    /// The step budget ran out before the machine halted or faulted.
    OutOfFuel,
}

/// The executable outcome `r` reports exactly what the transition `m` says,
/// with `fin` the machine's state after the step.
pub open spec fn step_outcome_matches(r: StepOutcome, m: StepModel, fin: VmModel) -> bool {
    match (r, m) {
        (StepOutcome::Running, StepModel::Next(vm2)) => fin == vm2,
        (StepOutcome::Halted(v), StepModel::Halt(mv)) => v@ == mv,
        (
            StepOutcome::Faulted { kind, ip, depth },
            StepModel::Fault { kind: k, ip: i, depth: d },
        ) => kind == k && ip as nat == i && depth as nat == d,
        _ => false,
    }
}

/// The mathematical values of the globals table, slot by slot.
pub open spec fn globals_model(gs: Seq<Option<Object>>) -> Seq<Option<ObjectModel>> {
    Seq::new(
        gs.len(),
        |i: int|
            match gs[i] {
                Some(o) => Some(o@),
                None => None,
            },
    )
}

/// The mathematical values of the frame stack, frame by frame.
pub open spec fn frames_model(fs: Seq<Frame>) -> Seq<FrameModel> {
    Seq::new(fs.len(), |i: int| fs[i]@)
}

/// The virtual machine: the unit's constant pool, the flat globals table,
/// the shared operand stack, the call-frame stack, and the value most
/// recently discarded by `Pop`.
pub struct VM {
    pub constants: Vec<Object>,
    pub globals: Vec<Option<Object>>,
    pub stack: Vec<Object>,
    pub frames: Vec<Frame>,
    pub last_popped: Object,
}

impl View for VM {
    type V = VmModel;

    open spec fn view(&self) -> VmModel {
        VmModel {
            consts: consts_model(self.constants@),
            globals: globals_model(self.globals@),
            stack: consts_model(self.stack@),
            frames: frames_model(self.frames@),
            last_popped: self.last_popped@,
        }
    }
}

impl VM {
    /// A machine ready to run one compiled unit.
    pub fn new(instructions: Vec<Instruction>, constants: Vec<Object>) -> (vm: VM)
        ensures
            vm@ == init_vm_model(instructions@, consts_model(constants@)),
    {
        let mut frames: Vec<Frame> = Vec::new();
        frames.push(Frame { instructions, ip: 0, base_pointer: 0 });
        let vm = VM {
            constants,
            globals: Vec::new(),
            stack: Vec::new(),
            frames,
            last_popped: Object::Null,
        };
        proof {
            let m = init_vm_model(vm.frames@[0].instructions@, consts_model(vm.constants@));
            assert(vm@.globals =~= m.globals);
            assert(vm@.stack =~= m.stack);
            assert(vm@.frames =~= m.frames);
        }
        vm
    }

    /// How many frames are on the call stack.
    pub fn frame_count(&self) -> (n: usize)
        ensures
            n == self@.frames.len(),
    {
        self.frames.len()
    }

    /// How deep the operand stack currently is.
    pub fn stack_depth(&self) -> (n: usize)
        ensures
            n == self@.stack.len(),
    {
        self.stack.len()
    }

    /// One fetch-execute step: exactly the transition `step_model` defines.
    #[verifier::rlimit(100)]
    #[verifier::spinoff_prover]
    pub fn step(&mut self) -> (r: StepOutcome)
        requires
            old(self)@.frames.len() >= 1,
        ensures
            step_outcome_matches(r, step_model(old(self)@), final(self)@),
            r is Running ==> final(self)@.frames.len() >= 1,
    {
        let depth = self.frames.len();
        let fidx = depth - 1;
        let ip = self.frames[fidx].ip;
        let code_len = self.frames[fidx].instructions.len();
        if ip >= code_len {
            if depth == 1 {
                let v = self.last_popped.clone();
                return StepOutcome::Halted(v);
            } else {
                return self.do_return(Object::Null, ip, depth);
            }
        }
        let instr = self.frames[fidx].instructions[ip];
        let fr = &mut self.frames[fidx];
        fr.ip = ip + 1;
        proof {
            assert(self@.frames =~= set_ip(old(self)@, ip as nat + 1).frames);
            assert(self@ == set_ip(old(self)@, ip as nat + 1));
        }
        match instr {
            Instruction::LoadConstant(idx) => {
                if idx < self.constants.len() {
                    let v = self.constants[idx].clone();
                    self.stack.push(v);
                    proof {
                        assert(final(self)@.stack =~= step_model(old(self)@)->Next_0.stack);
                    }
                    StepOutcome::Running
                } else {
                    StepOutcome::Faulted { kind: RuntimeFault::IndexOutOfBounds, ip, depth }
                }
            },
            Instruction::Pop => {
                if self.stack.len() == 0 {
                    StepOutcome::Faulted { kind: RuntimeFault::StackUnderflow, ip, depth }
                } else {
                    let v = self.stack.pop().unwrap();
                    self.last_popped = v;
                    proof {
                        assert(final(self)@.stack =~= step_model(old(self)@)->Next_0.stack);
                    }
                    StepOutcome::Running
                }
            },
            Instruction::Add | Instruction::Sub | Instruction::Mul | Instruction::Div
                | Instruction::Mod | Instruction::Equal | Instruction::NotEqual
                | Instruction::LessThan | Instruction::GreaterThan | Instruction::And
                | Instruction::Or => self.exec_binop(instr, ip, depth),
            Instruction::Not => {
                if self.stack.len() == 0 {
                    return StepOutcome::Faulted { kind: RuntimeFault::StackUnderflow, ip, depth };
                }
                let top = self.stack.pop().unwrap();
                match top {
                    Object::Boolean(b) => {
                        self.stack.push(Object::Boolean(!b));
                        proof {
                            assert(final(self)@.stack =~= step_model(old(self)@)->Next_0.stack);
                        }
                        StepOutcome::Running
                    },
                    _ => StepOutcome::Faulted { kind: RuntimeFault::TypeMismatch, ip, depth },
                }
            },
            Instruction::Neg => {
                if self.stack.len() == 0 {
                    return StepOutcome::Faulted { kind: RuntimeFault::StackUnderflow, ip, depth };
                }
                let top = self.stack.pop().unwrap();
                match top {
                    Object::Integer(a) => {
                        self.stack.push(Object::Integer((0i64).wrapping_sub(a)));
                        proof {
                            assert(final(self)@.stack =~= step_model(old(self)@)->Next_0.stack);
                        }
                        StepOutcome::Running
                    },
                    _ => StepOutcome::Faulted { kind: RuntimeFault::TypeMismatch, ip, depth },
                }
            },
            Instruction::Jump(t) => {
                let n = self.frames.len();
                let fr2 = &mut self.frames[n - 1];
                fr2.ip = t;
                proof {
                    assert(final(self)@.frames =~= step_model(old(self)@)->Next_0.frames);
                }
                StepOutcome::Running
            },
            Instruction::JumpNotTruthy(t) => {
                if self.stack.len() == 0 {
                    return StepOutcome::Faulted { kind: RuntimeFault::StackUnderflow, ip, depth };
                }
                let top = self.stack.pop().unwrap();
                match top {
                    Object::Boolean(b) => {
                        if !b {
                            let n = self.frames.len();
                            let fr2 = &mut self.frames[n - 1];
                            fr2.ip = t;
                        }
                        proof {
                            assert(final(self)@.stack =~= step_model(old(self)@)->Next_0.stack);
                            assert(final(self)@.frames =~= step_model(old(self)@)->Next_0.frames);
                        }
                        StepOutcome::Running
                    },
                    _ => StepOutcome::Faulted { kind: RuntimeFault::TypeMismatch, ip, depth },
                }
            },
            Instruction::SetGlobal(idx) => {
                if self.stack.len() == 0 {
                    return StepOutcome::Faulted { kind: RuntimeFault::StackUnderflow, ip, depth };
                }
                let v = self.stack[self.stack.len() - 1].clone();
                let ghost pre = self@;
                proof {
                    assert(globals_model(self.globals@) =~= pre.globals + Seq::new(
                        0 as nat,
                        |i: int| None::<ObjectModel>,
                    ));
                }
                while self.globals.len() <= idx
                    invariant
                        self.globals@.len() >= pre.globals.len(),
                        self.globals@.len() <= idx + 1 || self.globals@.len()
                            == pre.globals.len(),
                        globals_model(self.globals@) =~= pre.globals + Seq::new(
                            (self.globals@.len() - pre.globals.len()) as nat,
                            |i: int| None::<ObjectModel>,
                        ),
                        consts_model(self.constants@) == pre.consts,
                        consts_model(self.stack@) == pre.stack,
                        frames_model(self.frames@) == pre.frames,
                        self.last_popped@ == pre.last_popped,
                    decreases idx - self.globals.len() + 1,
                {
                    let ghost gp = self.globals@;
                    self.globals.push(None);
                    proof {
                        assert(globals_model(self.globals@) =~= globals_model(gp).push(
                            None::<ObjectModel>,
                        ));
                        assert(globals_model(self.globals@) =~= pre.globals + Seq::new(
                            (self.globals@.len() - pre.globals.len()) as nat,
                            |i: int| None::<ObjectModel>,
                        ));
                    }
                }
                let ghost grown = self.globals@;
                self.globals[idx] = Some(v);
                proof {
                    let gs = grow_set(pre.globals, idx as int, pre.stack.last());
                    assert(v@ == pre.stack.last());
                    assert(grown.len() > idx);
                    assert(self.globals@ == grown.update(idx as int, Some(v)));
                    assert(self.globals@.len() as int == gs.len());
                    assert forall|i: int| 0 <= i < gs.len() implies globals_model(
                        self.globals@,
                    )[i] == gs[i] by {
                        if i == idx {
                            assert(self.globals@[i] == Some(v));
                        } else {
                            assert(self.globals@[i] == grown[i]);
                            assert(globals_model(grown)[i] == (pre.globals + Seq::new(
                                (grown.len() - pre.globals.len()) as nat,
                                |j: int| None::<ObjectModel>,
                            ))[i]);
                        }
                    }
                    assert(globals_model(self.globals@) =~= gs);
                    assert(final(self)@.globals =~= step_model(old(self)@)->Next_0.globals);
                }
                StepOutcome::Running
            },
            Instruction::GetGlobal(idx) => {
                if idx < self.globals.len() {
                    let slot = &self.globals[idx];
                    match slot {
                        Some(o) => {
                            let v = o.clone();
                            self.stack.push(v);
                            proof {
                                assert(final(self)@.stack =~= step_model(
                                    old(self)@,
                                )->Next_0.stack);
                            }
                            StepOutcome::Running
                        },
                        None => StepOutcome::Faulted { kind: RuntimeFault::UninitializedGlobal, ip, depth, },
                    }
                } else {
                    StepOutcome::Faulted { kind: RuntimeFault::UninitializedGlobal, ip, depth }
                }
            },
            Instruction::SetLocal(idx) => {
                if self.stack.len() == 0 {
                    return StepOutcome::Faulted { kind: RuntimeFault::StackUnderflow, ip, depth };
                }
                let base = self.frames[fidx].base_pointer;
                match base.checked_add(idx) {
                    None => StepOutcome::Faulted { kind: RuntimeFault::StackUnderflow, ip, depth },
                    Some(slot) => {
                        if slot >= self.stack.len() {
                            StepOutcome::Faulted { kind: RuntimeFault::StackUnderflow, ip, depth, }
                        } else {
                            let v = self.stack[self.stack.len() - 1].clone();
                            self.stack[slot] = v;
                            proof {
                                assert(final(self)@.stack =~= step_model(
                                    old(self)@,
                                )->Next_0.stack);
                            }
                            StepOutcome::Running
                        }
                    },
                }
            },
            Instruction::GetLocal(idx) => {
                let base = self.frames[fidx].base_pointer;
                let height: usize = self.stack.len();
                match base.checked_add(idx) {
                    None => StepOutcome::Faulted { kind: RuntimeFault::StackUnderflow, ip, depth },
                    Some(slot) => {
                        if slot >= height {
                            StepOutcome::Faulted { kind: RuntimeFault::StackUnderflow, ip, depth, }
                        } else {
                            let v = self.stack[slot].clone();
                            self.stack.push(v);
                            proof {
                                assert(final(self)@.stack =~= step_model(
                                    old(self)@,
                                )->Next_0.stack);
                            }
                            StepOutcome::Running
                        }
                    },
                }
            },
            Instruction::Call(argc) => self.exec_call(argc, ip, depth),
            Instruction::Return => {
                if self.stack.len() == 0 {
                    return StepOutcome::Faulted { kind: RuntimeFault::StackUnderflow, ip, depth };
                }
                let v = self.stack.pop().unwrap();
                proof {
                    let vm1 = set_ip(old(self)@, ip as nat + 1);
                    assert(consts_model(self.stack@) =~= vm1.stack.drop_last());
                    assert(self@ == with_stack(vm1, vm1.stack.drop_last()));
                    assert(v@ == old(self)@.stack.last());
                }
                self.do_return(v, ip, depth)
            },
            Instruction::Index => {
                if self.stack.len() < 2 {
                    return StepOutcome::Faulted { kind: RuntimeFault::StackUnderflow, ip, depth };
                }
                let idx_obj = self.stack.pop().unwrap();
                let arr_obj = self.stack.pop().unwrap();
                proof {
                    assert(consts_model(self.stack@) =~= consts_model(old(self).stack@).take(
                        old(self).stack@.len() - 2,
                    ));
                }
                match (arr_obj, idx_obj) {
                    (Object::Array(items), Object::Integer(i)) => {
                        if i >= 0 && (i as u64) < (items.len() as u64) {
                            proof {
                                crate::code::lemma_objs_model(items@);
                            }
                            let v = items[i as usize].clone();
                            self.stack.push(v);
                            proof {
                                assert(final(self)@.stack =~= step_model(
                                    old(self)@,
                                )->Next_0.stack);
                            }
                            StepOutcome::Running
                        } else {
                            proof {
                                crate::code::lemma_objs_model(items@);
                            }
                            StepOutcome::Faulted { kind: RuntimeFault::IndexOutOfBounds, ip, depth, }
                        }
                    },
                    _ => StepOutcome::Faulted { kind: RuntimeFault::TypeMismatch, ip, depth },
                }
            },
            Instruction::SetIndex => {
                if self.stack.len() < 3 {
                    return StepOutcome::Faulted { kind: RuntimeFault::StackUnderflow, ip, depth };
                }
                let v = self.stack.pop().unwrap();
                let idx_obj = self.stack.pop().unwrap();
                let arr_obj = self.stack.pop().unwrap();
                proof {
                    assert(consts_model(self.stack@) =~= consts_model(old(self).stack@).take(
                        old(self).stack@.len() - 3,
                    ));
                }
                match (arr_obj, idx_obj) {
                    (Object::Array(items), Object::Integer(i)) => {
                        if i >= 0 && (i as u64) < (items.len() as u64) {
                            proof {
                                crate::code::lemma_objs_model(items@);
                            }
                            let mut items = items;
                            items[i as usize] = v;
                            proof {
                                crate::code::lemma_objs_model(items@);
                            }
                            self.stack.push(Object::Array(items));
                            proof {
                                let m = step_model(old(self)@)->Next_0;
                                assert(final(self)@.stack.last()->Array_0 =~= m.stack.last()->Array_0);
                                assert(final(self)@.stack =~= m.stack);
                            }
                            StepOutcome::Running
                        } else {
                            proof {
                                crate::code::lemma_objs_model(items@);
                            }
                            StepOutcome::Faulted { kind: RuntimeFault::IndexOutOfBounds, ip, depth, }
                        }
                    },
                    _ => StepOutcome::Faulted { kind: RuntimeFault::TypeMismatch, ip, depth },
                }
            },
        }
    }

    /// A two-operand opcode on an already-advanced machine.
    #[verifier::rlimit(100)]
    #[verifier::spinoff_prover]
    fn exec_binop(&mut self, instr: Instruction, fip: usize, depth: usize) -> (r: StepOutcome)
        requires
            instr is Add || instr is Sub || instr is Mul || instr is Div || instr is Mod || instr
                is Equal || instr is NotEqual || instr is LessThan || instr is GreaterThan
                || instr is And || instr is Or,
        ensures
            step_outcome_matches(
                r,
                binop_step_model(old(self)@, instr, fip as nat, depth as nat),
                final(self)@,
            ),
            r is Running ==> final(self)@.frames == old(self)@.frames,
    {
        if self.stack.len() < 2 {
            return StepOutcome::Faulted { kind: RuntimeFault::StackUnderflow, ip: fip, depth };
        }
        let right = self.stack.pop().unwrap();
        let left = self.stack.pop().unwrap();
        proof {
            assert(consts_model(self.stack@) =~= consts_model(old(self).stack@).take(
                old(self).stack@.len() - 2,
            ));
        }
        match instr {
            Instruction::Add | Instruction::Sub | Instruction::Mul | Instruction::Div
                | Instruction::Mod => {
                match (left, right) {
                    (Object::Integer(a), Object::Integer(b)) => {
                        let divmod = match instr {
                            Instruction::Div | Instruction::Mod => true,
                            _ => false,
                        };
                        if divmod && b == 0 {
                            return StepOutcome::Faulted {
                                kind: RuntimeFault::DivisionByZero,
                                ip: fip,
                                depth,
                            };
                        }
                        let res: i64 = match instr {
                            Instruction::Add => a.wrapping_add(b),
                            Instruction::Sub => a.wrapping_sub(b),
                            Instruction::Mul => a.wrapping_mul(b),
                            Instruction::Div => match a.checked_div(b) {
                                Some(q) => q,
                                None => i64::MIN,
                            },
                            Instruction::Mod => match a.checked_rem(b) {
                                Some(m) => m,
                                None => 0,
                            },
                            _ => {
                                proof {
                                    assert(false);
                                }
                                0
                            },
                        };
                        self.stack.push(Object::Integer(res));
                        proof {
                            let m = binop_step_model(old(self)@, instr, fip as nat, depth as nat);
                            assert(final(self)@.stack =~= m->Next_0.stack);
                        }
                        StepOutcome::Running
                    },
                    _ => StepOutcome::Faulted { kind: RuntimeFault::TypeMismatch, ip: fip, depth },
                }
            },
            Instruction::Equal | Instruction::NotEqual => {
                let eq = obj_equals(&left, &right);
                let res = match instr {
                    Instruction::Equal => eq,
                    _ => !eq,
                };
                self.stack.push(Object::Boolean(res));
                proof {
                    let m = binop_step_model(old(self)@, instr, fip as nat, depth as nat);
                    assert(final(self)@.stack =~= m->Next_0.stack);
                }
                StepOutcome::Running
            },
            Instruction::LessThan | Instruction::GreaterThan => {
                match (left, right) {
                    (Object::Integer(a), Object::Integer(b)) => {
                        let res = match instr {
                            Instruction::LessThan => a < b,
                            _ => a > b,
                        };
                        self.stack.push(Object::Boolean(res));
                        proof {
                            let m = binop_step_model(old(self)@, instr, fip as nat, depth as nat);
                            assert(final(self)@.stack =~= m->Next_0.stack);
                        }
                        StepOutcome::Running
                    },
                    _ => StepOutcome::Faulted { kind: RuntimeFault::TypeMismatch, ip: fip, depth },
                }
            },
            Instruction::And | Instruction::Or => {
                match (left, right) {
                    (Object::Boolean(x), Object::Boolean(y)) => {
                        let res = match instr {
                            Instruction::And => x && y,
                            _ => x || y,
                        };
                        self.stack.push(Object::Boolean(res));
                        proof {
                            let m = binop_step_model(old(self)@, instr, fip as nat, depth as nat);
                            assert(final(self)@.stack =~= m->Next_0.stack);
                        }
                        StepOutcome::Running
                    },
                    _ => StepOutcome::Faulted { kind: RuntimeFault::TypeMismatch, ip: fip, depth },
                }
            },
            _ => {
                proof {
                    assert(false);
                }
                StepOutcome::Running
            },
        }
    }

    /// A `Call(argc)` on an already-advanced machine.
    #[verifier::rlimit(100)]
    #[verifier::spinoff_prover]
    fn exec_call(&mut self, argc: usize, fip: usize, depth: usize) -> (r: StepOutcome)
        ensures
            step_outcome_matches(
                r,
                call_step_model(old(self)@, argc as nat, fip as nat, depth as nat),
                final(self)@,
            ),
            r is Running ==> final(self)@.frames.len() >= 1,
    {
        if argc >= self.stack.len() {
            return StepOutcome::Faulted { kind: RuntimeFault::StackUnderflow, ip: fip, depth };
        }
        let pos = self.stack.len() - argc - 1;
        let func = match &self.stack[pos] {
            Object::Function(f) => f.clone(),
            _ => {
                return StepOutcome::Faulted { kind: RuntimeFault::TypeMismatch, ip: fip, depth };
            },
        };
        if argc != func.num_parameters {
            return StepOutcome::Faulted { kind: RuntimeFault::ArityMismatch, ip: fip, depth };
        }
        let base = self.stack.len() - argc;
        let extra = if func.num_locals > func.num_parameters {
            func.num_locals - func.num_parameters
        } else {
            0
        };
        let mut k: usize = 0;
        while k < extra
            invariant
                k <= extra,
                consts_model(self.stack@) =~= consts_model(old(self).stack@) + Seq::new(
                    k as nat,
                    |i: int| ObjectModel::Null,
                ),
                self.constants@ == old(self).constants@,
                self.globals@ == old(self).globals@,
                self.frames@ == old(self).frames@,
                self.last_popped@ == old(self).last_popped@,
            decreases extra - k,
        {
            let ghost sp = self.stack@;
            self.stack.push(Object::Null);
            k = k + 1;
            proof {
                assert(consts_model(self.stack@) =~= consts_model(sp).push(ObjectModel::Null));
                assert(Seq::new(k as nat, |i: int| ObjectModel::Null) =~= Seq::new(
                    (k - 1) as nat,
                    |i: int| ObjectModel::Null,
                ).push(ObjectModel::Null));
                assert(consts_model(self.stack@) =~= consts_model(old(self).stack@) + Seq::new(
                    k as nat,
                    |i: int| ObjectModel::Null,
                ));
            }
        }
        self.frames.push(Frame { instructions: func.instructions, ip: 0, base_pointer: base });
        proof {
            let m = call_step_model(old(self)@, argc as nat, fip as nat, depth as nat);
            assert(final(self)@.stack =~= m->Next_0.stack);
            assert(final(self)@.frames =~= m->Next_0.frames);
        }
        StepOutcome::Running
    }

    /// Return `value` out of the current frame (or halt, from the outermost).
    #[verifier::rlimit(100)]
    #[verifier::spinoff_prover]
    fn do_return(&mut self, value: Object, fip: usize, depth: usize) -> (r: StepOutcome)
        requires
            old(self)@.frames.len() >= 1,
        ensures
            step_outcome_matches(
                r,
                return_model(old(self)@, value@, fip as nat, depth as nat),
                final(self)@,
            ),
            r is Running ==> final(self)@.frames.len() >= 1,
    {
        if self.frames.len() <= 1 {
            return StepOutcome::Halted(value);
        }
        let frame = self.frames.pop().unwrap();
        let base = frame.base_pointer;
        let cut = if base >= 1 {
            base - 1
        } else {
            0
        };
        if cut > self.stack.len() {
            return StepOutcome::Faulted { kind: RuntimeFault::StackUnderflow, ip: fip, depth };
        }
        self.stack.truncate(cut);
        self.stack.push(value);
        proof {
            let m = return_model(old(self)@, value@, fip as nat, depth as nat);
            assert(final(self)@.stack =~= m->Next_0.stack);
            assert(final(self)@.frames =~= m->Next_0.frames);
        }
        StepOutcome::Running
    }

    /// Drain the machine for at most `fuel` steps: exactly what `run_model`
    /// says of the starting state. A finished run reports the value of the
    /// last expression statement executed (or of a top-level `ret`); a fault
    /// is terminal and reports its kind, instruction offset and frame depth.
    pub fn run(&mut self, fuel: u64) -> (r: RunOutcome)
        requires
            old(self)@.frames.len() >= 1,
        ensures
            match (r, run_model(old(self)@, fuel as nat)) {
                (RunOutcome::Halted(v), RunModel::Halted(m)) => v@ == m,
                (
                    RunOutcome::Faulted { kind, ip, depth },
                    RunModel::Faulted { kind: k, ip: i, depth: d },
                ) => kind == k && ip as nat == i && depth as nat == d,
                (RunOutcome::OutOfFuel, RunModel::Running(_)) => true,
                _ => false,
            },
    {
        let mut remaining: u64 = fuel;
        while remaining > 0
            invariant
                self@.frames.len() >= 1,
                run_model(old(self)@, fuel as nat) == run_model(self@, remaining as nat),
            decreases remaining,
        {
            let ghost pre = self@;
            match self.step() {
                StepOutcome::Running => {},
                StepOutcome::Halted(v) => {
                    return RunOutcome::Halted(v);
                },
                StepOutcome::Faulted { kind, ip, depth } => {
                    return RunOutcome::Faulted { kind, ip, depth };
                },
            }
            remaining = remaining - 1;
        }
        RunOutcome::OutOfFuel
    }
}

/// Compile-produced bytecode in, run result out: execute `instructions`
/// against `constants` for at most `fuel` steps.
pub fn run(instructions: Vec<Instruction>, constants: Vec<Object>, fuel: u64) -> (r: RunOutcome)
    ensures
        match (r, run_model(init_vm_model(instructions@, consts_model(constants@)), fuel as nat)) {
            (RunOutcome::Halted(v), RunModel::Halted(m)) => v@ == m,
            (
                RunOutcome::Faulted { kind, ip, depth },
                RunModel::Faulted { kind: k, ip: i, depth: d },
            ) => kind == k && ip as nat == i && depth as nat == d,
            (RunOutcome::OutOfFuel, RunModel::Running(_)) => true,
            _ => false,
        },
{
    let mut vm = VM::new(instructions, constants);
    vm.run(fuel)
}

} // verus!
