//! The instruction set, the runtime value model and the compiled-function
//! record, together with the ghost views that the compiler's and the virtual
//! machine's contracts are stated over.
use vstd::prelude::*;

verus! {

/// One bytecode operation: an opcode tagged with zero or one operand. An
/// operand is an index into the constant pool, a storage-slot index, an
/// absolute jump target, or an argument count. Instructions are stored in a
/// flat, 0-indexed, densely packed sequence; jump targets are raw offsets
/// into that sequence.
#[derive(Debug, Clone, Copy, PartialEq, Eq, Structural)]
pub enum Instruction {
    /// Push a copy of constant-pool entry `idx`.
    LoadConstant(usize),
    /// Pop right then left; push the integer result.
    Add,
    Sub,
    Mul,
    Div,
    Mod,
    /// Pop right then left; push the boolean result of a value comparison.
    Equal,
    NotEqual,
    /// Pop right then left; both must be integers; push the boolean result.
    LessThan,
    GreaterThan,
    /// Pop right then left; both must be booleans; push the boolean result.
    And,
    Or,
    /// Pop a boolean; push its negation.
    Not,
    /// Pop an integer; push its (wrapping) negation.
    Neg,
    /// Unconditionally set the instruction pointer to the operand.
    Jump(usize),
    /// Pop a boolean; if it is false, set the instruction pointer to the
    /// operand.
    JumpNotTruthy(usize),
    /// Store the top of the stack (without popping it) into global slot `idx`,
    /// growing the globals table on demand.
    SetGlobal(usize),
    /// Push a copy of global slot `idx`.
    GetGlobal(usize),
    /// Store the top of the stack (without popping it) into local slot `idx`
    /// of the current frame.
    SetLocal(usize),
    /// Push a copy of local slot `idx` of the current frame.
    GetLocal(usize),
    /// Call the function found below the top `argc` stack slots.
    Call(usize),
    /// Pop the return value, discard the current frame, and resume the caller.
    Return,
    /// Pop and discard the top of the stack, recording it as the most recently
    /// discarded value (the result of a finished run).
    Pop,
    /// Pop an index and an array; push a copy of the selected element.
    Index,
    /// Pop a value, an index and an array; push the array with the selected
    /// element replaced.
    SetIndex,
}

/// A compiled function: its own instruction sequence, the number of local
/// slots its frame needs (parameters included), and its declared parameter
/// count. Immutable once compilation has produced it.
#[derive(Debug)]
pub struct Function {
    pub instructions: Vec<Instruction>,
    pub num_locals: usize,
    pub num_parameters: usize,
}

/// A runtime value: a closed tagged union shared between the constant pool,
/// the globals table and the operand stack. Every value is exactly one
/// variant; there is no implicit coercion between variants.
#[derive(Debug)]
pub enum Object {
    Integer(i64),
    Boolean(bool),
    String(String),
    Array(Vec<Object>),
    Function(Function),
    Null,
}

/// The mathematical value of a [`Function`].
pub ghost struct FunctionModel {
    pub instructions: Seq<Instruction>,
    pub num_locals: nat,
    pub num_parameters: nat,
}

/// The mathematical value of an [`Object`]: strings as character sequences,
/// arrays as sequences of values.
pub ghost enum ObjectModel {
    Integer(i64),
    Boolean(bool),
    String(Seq<char>),
    Array(Seq<ObjectModel>),
    Function(FunctionModel),
    Null,
}

impl View for Function {
    type V = FunctionModel;

    open spec fn view(&self) -> FunctionModel {
        FunctionModel {
            instructions: self.instructions@,
            num_locals: self.num_locals as nat,
            num_parameters: self.num_parameters as nat,
        }
    }
}

/// The mathematical value of one runtime value.
pub open spec fn obj_model(o: Object) -> ObjectModel
    decreases o,
{
    match o {
        Object::Integer(i) => ObjectModel::Integer(i),
        Object::Boolean(b) => ObjectModel::Boolean(b),
        Object::String(s) => ObjectModel::String(s@),
        Object::Array(items) => ObjectModel::Array(objs_model(items@)),
        Object::Function(f) => ObjectModel::Function(f@),
        Object::Null => ObjectModel::Null,
    }
}

/// The mathematical values of a sequence of runtime values, element by
/// element.
pub open spec fn objs_model(items: Seq<Object>) -> Seq<ObjectModel>
    decreases items,
{
    if items.len() == 0 {
        Seq::empty()
    } else {
        objs_model(items.drop_last()).push(obj_model(items.last()))
    }
}

/// `objs_model` maps the sequence element by element.
pub broadcast proof fn lemma_objs_model(items: Seq<Object>)
    ensures
        #[trigger] objs_model(items).len() == items.len(),
        forall|i: int| 0 <= i < items.len() ==> objs_model(items)[i] == obj_model(items[i]),
    decreases items,
{
    if items.len() > 0 {
        lemma_objs_model(items.drop_last());
    }
}

impl View for Object {
    type V = ObjectModel;

    open spec fn view(&self) -> ObjectModel {
        obj_model(*self)
    }
}

impl Clone for Function {
    /// Cloning a compiled function preserves its mathematical value.
    fn clone(&self) -> (res: Self)
        ensures
            res@ == self@,
    {
        let mut code: Vec<Instruction> = Vec::new();
        let mut i: usize = 0;
        while i < self.instructions.len()
            invariant
                i <= self.instructions@.len(),
                code@ =~= self.instructions@.take(i as int),
            decreases self.instructions@.len() - i,
        {
            code.push(self.instructions[i]);
            i = i + 1;
        }
        proof {
            assert(code@ =~= self.instructions@);
        }
        Function {
            instructions: code,
            num_locals: self.num_locals,
            num_parameters: self.num_parameters,
        }
    }
}

impl Clone for Object {
    /// Cloning a value preserves its mathematical value: pushing a constant,
    /// a global or a local onto the stack pushes a copy with the same
    /// meaning.
    fn clone(&self) -> (res: Self)
        ensures
            res@ == self@,
        decreases self,
    {
        match self {
            Object::Integer(i) => Object::Integer(*i),
            Object::Boolean(b) => Object::Boolean(*b),
            Object::String(s) => Object::String(s.clone()),
            Object::Null => Object::Null,
            Object::Function(f) => Object::Function(f.clone()),
            Object::Array(items) => {
                let mut out: Vec<Object> = Vec::new();
                let mut i: usize = 0;
                while i < items.len()
                    invariant
                        i <= items@.len(),
                        out@.len() == i,
                        forall|k: int| 0 <= k < i ==> out@[k]@ == items@[k]@,
                    decreases items@.len() - i,
                {
                    proof {
                        assert(decreases_to!(*self => items@[i as int]));
                    }
                    let copied = items[i].clone();
                    out.push(copied);
                    i = i + 1;
                }
                proof {
                    crate::code::lemma_objs_model(out@);
                    crate::code::lemma_objs_model(items@);
                    assert(objs_model(out@) =~= objs_model(items@));
                }
                Object::Array(out)
            },
        }
    }
}

/// Relies on `String::push`: appends exactly the given character.
#[verifier::external_body]
pub(crate) fn push_char(s: &mut String, c: char)
    ensures
        final(s)@ == old(s)@.push(c),
{
    s.push(c);
}

/// Whether two values are the same mathematical value: scalars by value,
/// arrays element by element, functions by their code and shape.
pub fn obj_equals(a: &Object, b: &Object) -> (r: bool)
    ensures
        r == (a@ == b@),
    decreases *a,
{
    match (a, b) {
        (Object::Integer(x), Object::Integer(y)) => *x == *y,
        (Object::Boolean(x), Object::Boolean(y)) => *x == *y,
        (Object::String(x), Object::String(y)) => *x == *y,
        (Object::Null, Object::Null) => true,
        (Object::Function(f), Object::Function(g)) => {
            if f.num_locals != g.num_locals || f.num_parameters != g.num_parameters
                || f.instructions.len() != g.instructions.len() {
                false
            } else {
                let mut i: usize = 0;
                let mut same = true;
                while i < f.instructions.len()
                    invariant
                        i <= f.instructions@.len(),
                        f.instructions@.len() == g.instructions@.len(),
                        same == (f.instructions@.take(i as int) =~= g.instructions@.take(
                            i as int,
                        )),
                    decreases f.instructions@.len() - i,
                {
                    let eq_here = f.instructions[i] == g.instructions[i];
                    proof {
                        assert(f.instructions@.take(i + 1).drop_last() =~= f.instructions@.take(
                            i as int,
                        ));
                        assert(g.instructions@.take(i + 1).drop_last() =~= g.instructions@.take(
                            i as int,
                        ));
                        assert(f.instructions@.take(i + 1).last() == f.instructions@[i as int]);
                        assert(g.instructions@.take(i + 1).last() == g.instructions@[i as int]);
                    }
                    same = same && eq_here;
                    i = i + 1;
                }
                proof {
                    assert(f.instructions@.take(f.instructions@.len() as int) =~= f.instructions@);
                    assert(g.instructions@.take(g.instructions@.len() as int) =~= g.instructions@);
                    if same {
                        assert(a@ == b@);
                    } else {
                        assert(f.instructions@ != g.instructions@);
                        assert(a@ != b@);
                    }
                }
                same
            }
        },
        (Object::Array(x), Object::Array(y)) => {
            proof {
                lemma_objs_model(x@);
                lemma_objs_model(y@);
            }
            if x.len() != y.len() {
                proof {
                    assert(objs_model(x@).len() != objs_model(y@).len());
                }
                false
            } else {
                let mut i: usize = 0;
                while i < x.len()
                    invariant
                        i <= x@.len(),
                        x@.len() == y@.len(),
                        forall|k: int| 0 <= k < i ==> objs_model(x@)[k] == objs_model(y@)[k],
                    decreases x@.len() - i,
                {
                    proof {
                        assert(decreases_to!(*a => x@[i as int]));
                    }
                    let eq_here = obj_equals(&x[i], &y[i]);
                    proof {
                        lemma_objs_model(x@);
                        lemma_objs_model(y@);
                    }
                    if !eq_here {
                        proof {
                            assert(objs_model(x@)[i as int] != objs_model(y@)[i as int]);
                            assert(objs_model(x@) != objs_model(y@));
                            assert(a@ != b@);
                        }
                        return false;
                    }
                    i = i + 1;
                }
                proof {
                    assert(objs_model(x@) =~= objs_model(y@));
                }
                true
            }
        },
        _ => {
            proof {
                assert(a@ != b@);
            }
            false
        },
    }
}

} // verus!
