//! The bytecode compiler: a single forward walk of the syntax tree that emits
//! instructions into a flat buffer, interns literals into a deduplicated
//! constant pool, resolves names through the symbol table, and backpatches
//! forward jump targets once the jumped-over region's length is known.
//!
//! The whole translation is defined twice: once as pure specification
//! functions over sequences (`compile_model` and friends), and once as
//! executable code whose contracts state that it computes exactly the model.
use vstd::prelude::*;

use crate::ast::{BinaryOp, Expression, LiteralValue, PrefixOp, Statement};
use crate::code::{obj_equals, push_char, Function, FunctionModel, Instruction, Object, ObjectModel};
use crate::symbol::{
    define_model, resolves_to, table_wf, LevelModel, Symbol, SymbolModel, SymbolScope, SymbolTable,
};

verus! {

/// Why a compilation was rejected. Every error aborts the compilation; no
/// partial bytecode is returned.
#[derive(Debug, Clone, Copy, PartialEq, Eq, Structural)]
pub enum CompileError {
    /// A name was referenced that no reachable scope defines.
    UnresolvedIdentifier,
    /// The left side of an assignment is not a variable or a variable's
    /// indexed element.
    InvalidAssignmentTarget,
    /// A function declares the same parameter name twice.
    DuplicateParameter,
}

/// The compiler's whole state, mathematically: the instruction buffer being
/// filled, the constant pool of the unit, and the symbol-table levels.
pub ghost struct CompModel {
    pub code: Seq<Instruction>,
    pub consts: Seq<ObjectModel>,
    pub tab: Seq<LevelModel>,
}

/// The state a fresh compilation starts from: empty buffers over the global
/// scope.
pub open spec fn init_comp_model() -> CompModel {
    CompModel {
        code: Seq::empty(),
        consts: Seq::empty(),
        tab: seq![
            LevelModel {
                syms: Seq::empty(),
                next: 0,
                kind: SymbolScope::Global,
                is_function: true,
            },
        ],
    }
}

/// Values the pool deduplicates: scalars compare by value, so two equal
/// scalar literals may share one entry. Arrays and functions are never
/// interned.
pub open spec fn is_scalar(o: ObjectModel) -> bool {
    match o {
        ObjectModel::Integer(_) => true,
        ObjectModel::Boolean(_) => true,
        ObjectModel::String(_) => true,
        ObjectModel::Null => true,
        ObjectModel::Array(_) => false,
        ObjectModel::Function(_) => false,
    }
}

/// The first pool entry equal to `o`, if any.
pub open spec fn find_const(consts: Seq<ObjectModel>, o: ObjectModel) -> Option<int>
    decreases consts,
{
    if consts.len() == 0 {
        None
    } else if consts.first() == o {
        Some(0)
    } else {
        match find_const(consts.drop_first(), o) {
            Some(i) => Some(i + 1),
            None => None,
        }
    }
}

/// What `find_const` finds: an equal entry at the returned index, and `None`
/// exactly when no entry equals `o`.
pub proof fn lemma_find_const(consts: Seq<ObjectModel>, o: ObjectModel)
    ensures
        match find_const(consts, o) {
            Some(i) => 0 <= i < consts.len() && consts[i] == o,
            None => forall|k: int| 0 <= k < consts.len() ==> consts[k] != o,
        },
    decreases consts,
{
    if consts.len() > 0 && consts.first() != o {
        lemma_find_const(consts.drop_first(), o);
        if find_const(consts, o) is None {
            assert forall|k: int| 0 <= k < consts.len() implies consts[k] != o by {
                if k > 0 {
                    assert(consts.drop_first()[k - 1] == consts[k]);
                }
            }
        }
    }
}

/// Interning one scalar into the pool: reuse the first equal entry, else
/// append. Returns the new pool and the entry's index.
pub open spec fn add_const_model(consts: Seq<ObjectModel>, o: ObjectModel) -> (
    Seq<ObjectModel>,
    int,
) {
    match find_const(consts, o) {
        Some(i) => (consts, i),
        None => (consts.push(o), consts.len() as int),
    }
}

/// The runtime value of a literal. A character literal evaluates to a
/// one-character string.
pub open spec fn literal_model(v: LiteralValue) -> ObjectModel {
    match v {
        LiteralValue::Integer(i) => ObjectModel::Integer(i),
        LiteralValue::String(s) => ObjectModel::String(s@),
        LiteralValue::Char(c) => ObjectModel::String(seq![c]),
        LiteralValue::Bool(b) => ObjectModel::Boolean(b),
    }
}

/// The instruction that pushes the value a resolved name denotes: a global
/// slot, a local slot, or (for the function currently being compiled) its
/// reserved constant-pool entry.
pub open spec fn load_sym(sym: SymbolModel) -> Instruction {
    match sym.scope {
        SymbolScope::Global => Instruction::GetGlobal(sym.index as usize),
        SymbolScope::Local => Instruction::GetLocal(sym.index as usize),
        SymbolScope::Function => Instruction::LoadConstant(sym.index as usize),
    }
}

/// The instruction that stores the top of the stack into a resolved name's
/// slot.
pub open spec fn store_sym(sym: SymbolModel) -> Instruction
    recommends
        !(sym.scope is Function),
{
    match sym.scope {
        SymbolScope::Global => Instruction::SetGlobal(sym.index as usize),
        _ => Instruction::SetLocal(sym.index as usize),
    }
}

/// The opcode sequence of one binary operator. `<=` and `>=` have no opcode
/// of their own: they compile to the strict comparison the other way round,
/// negated.
pub open spec fn binary_op_code(op: BinaryOp) -> Seq<Instruction> {
    match op {
        BinaryOp::Plus => seq![Instruction::Add],
        BinaryOp::Minus => seq![Instruction::Sub],
        BinaryOp::Multiply => seq![Instruction::Mul],
        BinaryOp::Divide => seq![Instruction::Div],
        BinaryOp::Modulo => seq![Instruction::Mod],
        BinaryOp::Equal => seq![Instruction::Equal],
        BinaryOp::NotEqual => seq![Instruction::NotEqual],
        BinaryOp::LessThan => seq![Instruction::LessThan],
        BinaryOp::GreaterThan => seq![Instruction::GreaterThan],
        BinaryOp::LessEqual => seq![Instruction::GreaterThan, Instruction::Not],
        BinaryOp::GreaterEqual => seq![Instruction::LessThan, Instruction::Not],
        BinaryOp::And => seq![Instruction::And],
        BinaryOp::Or => seq![Instruction::Or],
    }
}

/// Append a literal's `LoadConstant` over the (possibly grown) pool.
pub open spec fn emit_const_model(st: CompModel, o: ObjectModel) -> CompModel {
    let (consts, idx) = add_const_model(st.consts, o);
    CompModel {
        code: st.code.push(Instruction::LoadConstant(idx as usize)),
        consts,
        tab: st.tab,
    }
}

/// Append one instruction.
pub open spec fn emit_model(st: CompModel, instr: Instruction) -> CompModel {
    CompModel { code: st.code.push(instr), consts: st.consts, tab: st.tab }
}

/// Open a block scope in the table.
pub open spec fn enter_block_model(st: CompModel) -> CompModel
    recommends
        st.tab.len() >= 1,
{
    CompModel {
        code: st.code,
        consts: st.consts,
        tab: st.tab.push(
            LevelModel {
                syms: Seq::empty(),
                next: st.tab.last().next,
                kind: st.tab.last().kind,
                is_function: false,
            },
        ),
    }
}

/// Close a block scope, handing its slot counter back to the level below.
pub open spec fn exit_block_model(st: CompModel) -> CompModel
    recommends
        st.tab.len() >= 2,
{
    CompModel {
        code: st.code,
        consts: st.consts,
        tab: st.tab.drop_last().update(
            st.tab.len() - 2,
            LevelModel {
                syms: st.tab[st.tab.len() - 2].syms,
                next: st.tab.last().next,
                kind: st.tab[st.tab.len() - 2].kind,
                is_function: st.tab[st.tab.len() - 2].is_function,
            },
        ),
    }
}

/// A fresh function scope seeded with the function's own name bound to its
/// reserved constant-pool slot, so the body can refer to itself.
pub open spec fn enter_function_model(st: CompModel, name: Seq<char>, fidx: int) -> Seq<
    LevelModel,
> {
    st.tab.push(
        LevelModel {
            syms: seq![
                SymbolModel { name: name, scope: SymbolScope::Function, index: fidx as nat },
            ],
            next: 0,
            kind: SymbolScope::Local,
            is_function: true,
        },
    )
}

/// Define each parameter, in declaration order, in the innermost scope.
pub open spec fn define_params_model(names: Seq<Seq<char>>, tab: Seq<LevelModel>) -> Seq<
    LevelModel,
>
    decreases names,
{
    if names.len() == 0 {
        tab
    } else {
        define_params_model(names.drop_first(), define_model(tab, names.first()).0)
    }
}

/// The parameter-name views of a declaration's parameter list.
pub open spec fn names_model(params: Seq<String>) -> Seq<Seq<char>> {
    Seq::new(params.len(), |i: int| params[i]@)
}

/// Whether two parameters share a name.
pub open spec fn has_duplicate(names: Seq<Seq<char>>) -> bool {
    exists|i: int, j: int| 0 <= i < j < names.len() && names[i] == names[j]
}

/// The placeholder that reserves a function's pool slot while its body is
/// being compiled. It is a function value, so interning a scalar can never
/// pick it up.
pub open spec fn placeholder_model() -> ObjectModel {
    ObjectModel::Function(
        FunctionModel { instructions: Seq::empty(), num_locals: 0, num_parameters: 0 },
    )
}

/// Compilation of one expression: postfix order, ending with exactly one net
/// push.
pub open spec fn compile_expr_model(e: Expression, st: CompModel) -> Result<
    CompModel,
    CompileError,
>
    decreases e,
{
    match e {
        Expression::Literal { value, .. } => Ok(emit_const_model(st, literal_model(value))),
        Expression::Variable { name, .. } => match resolves_to(st.tab, name@) {
            Some(sym) => Ok(emit_model(st, load_sym(sym))),
            None => Err(CompileError::UnresolvedIdentifier),
        },
        Expression::Unary { operator, operand, .. } => match compile_expr_model(*operand, st) {
            Ok(st1) => Ok(
                emit_model(
                    st1,
                    match operator {
                        PrefixOp::Not => Instruction::Not,
                        PrefixOp::Neg => Instruction::Neg,
                    },
                ),
            ),
            Err(e) => Err(e),
        },
        Expression::Binary { left, operator, right, .. } => match compile_expr_model(*left, st) {
            Ok(st1) => match compile_expr_model(*right, st1) {
                Ok(st2) => Ok(
                    CompModel {
                        code: st2.code + binary_op_code(operator),
                        consts: st2.consts,
                        tab: st2.tab,
                    },
                ),
                Err(e) => Err(e),
            },
            Err(e) => Err(e),
        },
        Expression::Call { callee, arguments, .. } => match compile_expr_model(*callee, st) {
            Ok(st1) => match compile_exprs_model(arguments@, st1) {
                Ok(st2) => Ok(emit_model(st2, Instruction::Call(arguments@.len() as usize))),
                Err(e) => Err(e),
            },
            Err(e) => Err(e),
        },
        Expression::Index { object, index, .. } => match compile_expr_model(*object, st) {
            Ok(st1) => match compile_expr_model(*index, st1) {
                Ok(st2) => Ok(emit_model(st2, Instruction::Index)),
                Err(e) => Err(e),
            },
            Err(e) => Err(e),
        },
        // An assignment: a plain variable target compiles its value and
        // stores it, leaving the value on the stack. An indexed target must
        // be a variable's element: the array, the index and the value are
        // pushed, the replaced array is rebuilt and stored back, and the
        // updated array is what the expression leaves on the stack. Anything
        // else is not assignable.
        Expression::Assign { target, value, .. } => match *target {
            Expression::Variable { name, .. } => match resolves_to(st.tab, name@) {
                None => Err(CompileError::UnresolvedIdentifier),
                Some(sym) => if sym.scope is Function {
                    Err(CompileError::InvalidAssignmentTarget)
                } else {
                    match compile_expr_model(*value, st) {
                        Ok(st1) => Ok(emit_model(st1, store_sym(sym))),
                        Err(e) => Err(e),
                    }
                },
            },
            Expression::Index { object, index, .. } => match *object {
                Expression::Variable { name, .. } => match resolves_to(st.tab, name@) {
                    None => Err(CompileError::UnresolvedIdentifier),
                    Some(sym) => if sym.scope is Function {
                        Err(CompileError::InvalidAssignmentTarget)
                    } else {
                        let st1 = emit_model(st, load_sym(sym));
                        match compile_expr_model(*index, st1) {
                            Ok(st2) => match compile_expr_model(*value, st2) {
                                Ok(st3) => Ok(
                                    emit_model(
                                        emit_model(st3, Instruction::SetIndex),
                                        store_sym(sym),
                                    ),
                                ),
                                Err(e) => Err(e),
                            },
                            Err(e) => Err(e),
                        }
                    },
                },
                _ => Err(CompileError::InvalidAssignmentTarget),
            },
            _ => Err(CompileError::InvalidAssignmentTarget),
        },
    }
}

/// Compilation of an argument list, left to right.
pub open spec fn compile_exprs_model(es: Seq<Expression>, st: CompModel) -> Result<
    CompModel,
    CompileError,
>
    decreases es,
{
    if es.len() == 0 {
        Ok(st)
    } else {
        match compile_expr_model(es.first(), st) {
            Ok(st1) => compile_exprs_model(es.drop_first(), st1),
            Err(e) => Err(e),
        }
    }
}

/// Compilation of one statement.
pub open spec fn compile_stmt_model(s: Statement, st: CompModel) -> Result<
    CompModel,
    CompileError,
>
    decreases s,
{
    match s {
        Statement::Block { statements, .. } => match compile_stmts_model(
            statements@,
            enter_block_model(st),
        ) {
            Ok(st1) => Ok(exit_block_model(st1)),
            Err(e) => Err(e),
        },
        Statement::Expression { expression, .. } => match compile_expr_model(*expression, st) {
            Ok(st1) => Ok(emit_model(st1, Instruction::Pop)),
            Err(e) => Err(e),
        },
        Statement::Return { value, .. } => {
            let pushed = match value {
                Some(e) => compile_expr_model(*e, st),
                None => Ok(emit_const_model(st, ObjectModel::Null)),
            };
            match pushed {
                Ok(st1) => Ok(emit_model(st1, Instruction::Return)),
                Err(e) => Err(e),
            }
        },
        Statement::If { condition, then_branch, else_branch, .. } => match compile_expr_model(
            *condition,
            st,
        ) {
            Ok(st1) => {
                let jnt_pos = st1.code.len() as int;
                let st2 = emit_model(st1, Instruction::JumpNotTruthy(0));
                match compile_stmt_model(*then_branch, st2) {
                    Ok(st3) => match else_branch {
                        None => Ok(
                            CompModel {
                                code: st3.code.update(
                                    jnt_pos,
                                    Instruction::JumpNotTruthy(st3.code.len() as usize),
                                ),
                                consts: st3.consts,
                                tab: st3.tab,
                            },
                        ),
                        Some(els) => {
                            let jmp_pos = st3.code.len() as int;
                            let st4 = emit_model(st3, Instruction::Jump(0));
                            let st5 = CompModel {
                                code: st4.code.update(
                                    jnt_pos,
                                    Instruction::JumpNotTruthy(st4.code.len() as usize),
                                ),
                                consts: st4.consts,
                                tab: st4.tab,
                            };
                            match compile_stmt_model(*els, st5) {
                                Ok(st6) => Ok(
                                    CompModel {
                                        code: st6.code.update(
                                            jmp_pos,
                                            Instruction::Jump(st6.code.len() as usize),
                                        ),
                                        consts: st6.consts,
                                        tab: st6.tab,
                                    },
                                ),
                                Err(e) => Err(e),
                            }
                        },
                    },
                    Err(e) => Err(e),
                }
            },
            Err(e) => Err(e),
        },
        Statement::While { condition, body, .. } => {
            let cond_pos = st.code.len() as int;
            match compile_expr_model(*condition, st) {
                Ok(st1) => {
                    let jnt_pos = st1.code.len() as int;
                    let st2 = emit_model(st1, Instruction::JumpNotTruthy(0));
                    match compile_stmt_model(*body, st2) {
                        Ok(st3) => {
                            let st4 = emit_model(st3, Instruction::Jump(cond_pos as usize));
                            Ok(
                                CompModel {
                                    code: st4.code.update(
                                        jnt_pos,
                                        Instruction::JumpNotTruthy(st4.code.len() as usize),
                                    ),
                                    consts: st4.consts,
                                    tab: st4.tab,
                                },
                            )
                        },
                        Err(e) => Err(e),
                    }
                },
                Err(e) => Err(e),
            }
        },
        Statement::For { init, condition, increment, body, .. } => {
            let st0 = enter_block_model(st);
            let inited = match init {
                Some(s0) => compile_stmt_model(*s0, st0),
                None => Ok(st0),
            };
            match inited {
                Ok(st1) => {
                    let cond_pos = st1.code.len() as int;
                    match compile_expr_model(*condition, st1) {
                        Ok(st2) => {
                            let jnt_pos = st2.code.len() as int;
                            let st3 = emit_model(st2, Instruction::JumpNotTruthy(0));
                            match compile_stmt_model(*body, st3) {
                                Ok(st4) => {
                                    let incremented = match increment {
                                        Some(s1) => compile_stmt_model(*s1, st4),
                                        None => Ok(st4),
                                    };
                                    match incremented {
                                        Ok(st5) => {
                                            let st6 = emit_model(
                                                st5,
                                                Instruction::Jump(cond_pos as usize),
                                            );
                                            Ok(
                                                exit_block_model(
                                                    CompModel {
                                                        code: st6.code.update(
                                                            jnt_pos,
                                                            Instruction::JumpNotTruthy(
                                                                st6.code.len() as usize,
                                                            ),
                                                        ),
                                                        consts: st6.consts,
                                                        tab: st6.tab,
                                                    },
                                                ),
                                            )
                                        },
                                        Err(e) => Err(e),
                                    }
                                },
                                Err(e) => Err(e),
                            }
                        },
                        Err(e) => Err(e),
                    }
                },
                Err(e) => Err(e),
            }
        },
        Statement::VariableDeclaration { name, initializer, .. } => {
            let pushed = match initializer {
                Some(e) => compile_expr_model(*e, st),
                None => Ok(emit_const_model(st, ObjectModel::Null)),
            };
            match pushed {
                Ok(st1) => {
                    let (tab2, sym) = define_model(st1.tab, name@);
                    Ok(
                        CompModel {
                            code: st1.code.push(store_sym(sym)).push(Instruction::Pop),
                            consts: st1.consts,
                            tab: tab2,
                        },
                    )
                },
                Err(e) => Err(e),
            }
        },
        Statement::FunctionDeclaration { name, parameters, body, .. } => {
            if has_duplicate(names_model(parameters@)) {
                Err(CompileError::DuplicateParameter)
            } else {
                let fidx = st.consts.len() as int;
                let consts1 = st.consts.push(placeholder_model());
                let tab1 = define_params_model(
                    names_model(parameters@),
                    enter_function_model(st, name@, fidx),
                );
                let st_body = CompModel { code: Seq::empty(), consts: consts1, tab: tab1 };
                match compile_stmt_model(*body, st_body) {
                    Ok(stb) => {
                        let (consts2, nidx) = add_const_model(stb.consts, ObjectModel::Null);
                        let body_code = stb.code.push(
                            Instruction::LoadConstant(nidx as usize),
                        ).push(Instruction::Return);
                        let f = FunctionModel {
                            instructions: body_code,
                            num_locals: stb.tab.last().next,
                            num_parameters: parameters@.len() as nat,
                        };
                        let consts3 = consts2.update(fidx, ObjectModel::Function(f));
                        let (tab2, sym) = define_model(stb.tab.drop_last(), name@);
                        Ok(
                            CompModel {
                                code: st.code.push(Instruction::LoadConstant(fidx as usize)).push(
                                    store_sym(sym),
                                ).push(Instruction::Pop),
                                consts: consts3,
                                tab: tab2,
                            },
                        )
                    },
                    Err(e) => Err(e),
                }
            }
        },
    }
}

/// Compilation of a statement sequence, in order.
pub open spec fn compile_stmts_model(ss: Seq<Statement>, st: CompModel) -> Result<
    CompModel,
    CompileError,
>
    decreases ss,
{
    if ss.len() == 0 {
        Ok(st)
    } else {
        match compile_stmt_model(ss.first(), st) {
            Ok(st1) => compile_stmts_model(ss.drop_first(), st1),
            Err(e) => Err(e),
        }
    }
}

/// Compilation of a whole unit, starting from the empty state.
pub open spec fn compile_model(program: Seq<Statement>) -> Result<CompModel, CompileError> {
    compile_stmts_model(program, init_comp_model())
}

/// The mathematical values of a constant pool, entry by entry.
pub open spec fn consts_model(cs: Seq<Object>) -> Seq<ObjectModel> {
    Seq::new(cs.len(), |i: int| cs[i]@)
}

/// Where the first match sits, `find_const` returns it.
proof fn lemma_find_const_first(consts: Seq<ObjectModel>, o: ObjectModel, i: int)
    requires
        0 <= i < consts.len(),
        consts[i] == o,
        forall|k: int| 0 <= k < i ==> consts[k] != o,
    ensures
        find_const(consts, o) == Some(i),
    decreases i,
{
    if i > 0 {
        assert forall|k: int| 0 <= k < i - 1 implies consts.drop_first()[k] != o by {
            assert(consts.drop_first()[k] == consts[k + 1]);
        }
        assert(consts.drop_first()[i - 1] == consts[i]);
        lemma_find_const_first(consts.drop_first(), o, i - 1);
    }
}

/// The compiler: owns the instruction buffer, the constant pool and the
/// active symbol-table chain, and fills them in one forward pass.
pub struct CodeGen {
    pub instructions: Vec<Instruction>,
    pub constants: Vec<Object>,
    pub symbol_table: SymbolTable,
}

impl View for CodeGen {
    type V = CompModel;

    open spec fn view(&self) -> CompModel {
        CompModel {
            code: self.instructions@,
            consts: consts_model(self.constants@),
            tab: self.symbol_table@,
        }
    }
}

/// The runtime value of one literal; a character literal becomes a
/// one-character string.
fn literal_object(v: &LiteralValue) -> (o: Object)
    ensures
        o@ == literal_model(*v),
{
    match v {
        LiteralValue::Integer(i) => Object::Integer(*i),
        LiteralValue::String(s) => Object::String(s.clone()),
        LiteralValue::Bool(b) => Object::Boolean(*b),
        LiteralValue::Char(c) => {
            let mut s = String::new();
            push_char(&mut s, *c);
            proof {
                assert(s@ =~= seq![*c]);
            }
            Object::String(s)
        },
    }
}

/// Whether two declared parameters share a name.
fn has_duplicate_names(params: &Vec<String>) -> (r: bool)
    ensures
        r == has_duplicate(names_model(params@)),
{
    let ghost names = names_model(params@);
    let mut j: usize = 1;
    while j < params.len()
        invariant
            1 <= j,
            forall|a: int, b: int| 0 <= a < b < j && b < names.len() ==> names[a] != names[b],
        decreases params@.len() - j,
    {
        let mut i: usize = 0;
        while i < j
            invariant
                i <= j < params@.len(),
                forall|k: int| 0 <= k < i ==> names[k] != names[j as int],
            decreases j - i,
        {
            let a: &String = &params[i];
            let b: &String = &params[j];
            if *a == *b {
                proof {
                    assert(names[i as int] == names[j as int]);
                    assert(0 <= i < j < names.len());
                }
                return true;
            }
            i = i + 1;
        }
        j = j + 1;
    }
    false
}

impl CodeGen {
    /// A fresh compiler: empty instruction buffer, empty constant pool, one
    /// global scope.
    pub fn new() -> (cg: CodeGen)
        ensures
            cg@ == init_comp_model(),
    {
        let cg = CodeGen {
            instructions: Vec::new(),
            constants: Vec::new(),
            symbol_table: SymbolTable::new(),
        };
        proof {
            assert(cg@.code =~= init_comp_model().code);
            assert(cg@.consts =~= init_comp_model().consts);
            assert(cg@.tab =~= init_comp_model().tab);
        }
        cg
    }

    /// The instruction buffer as filled so far.
    pub fn instructions(&self) -> (code: &Vec<Instruction>)
        ensures
            code@ == self@.code,
    {
        &self.instructions
    }

    /// The constant pool as filled so far.
    pub fn constants(&self) -> (consts: &Vec<Object>)
        ensures
            consts_model(consts@) == self@.consts,
    {
        &self.constants
    }

    /// Give up the compiler and keep its bytecode: the instruction sequence
    /// and the constant pool.
    pub fn into_bytecode(self) -> (r: (Vec<Instruction>, Vec<Object>))
        ensures
            r.0@ == self@.code,
            consts_model(r.1@) == self@.consts,
    {
        let CodeGen { instructions, constants, symbol_table: _ } = self;
        (instructions, constants)
    }

    /// Append one instruction; returns its position.
    fn emit(&mut self, instr: Instruction) -> (pos: usize)
        ensures
            final(self)@ == emit_model(old(self)@, instr),
            pos == old(self)@.code.len(),
    {
        let pos = self.instructions.len();
        self.instructions.push(instr);
        pos
    }

    /// Overwrite the instruction at `pos`: the second half of backpatching a
    /// forward jump.
    fn patch(&mut self, pos: usize, instr: Instruction)
        requires
            pos < old(self)@.code.len(),
        ensures
            final(self)@ == (CompModel {
                code: old(self)@.code.update(pos as int, instr),
                consts: old(self)@.consts,
                tab: old(self)@.tab,
            }),
    {
        self.instructions[pos] = instr;
    }

    /// Intern a value into the constant pool: reuse the first equal entry,
    /// else append. Returns the entry's index.
    fn add_scalar_constant(&mut self, obj: Object) -> (idx: usize)
        ensures
            ({
                let (c, i) = add_const_model(old(self)@.consts, obj@);
                &&& final(self)@.consts == c
                &&& idx as int == i
                &&& final(self)@.code == old(self)@.code
                &&& final(self)@.tab == old(self)@.tab
            }),
    {
        let n = self.constants.len();
        let mut i: usize = 0;
        while i < n
            invariant
                i <= n == self.constants@.len(),
                *self == *old(self),
                forall|k: int| 0 <= k < i ==> consts_model(self.constants@)[k] != obj@,
            decreases n - i,
        {
            if obj_equals(&self.constants[i], &obj) {
                proof {
                    lemma_find_const_first(self@.consts, obj@, i as int);
                }
                return i;
            }
            i = i + 1;
        }
        proof {
            lemma_find_const(self@.consts, obj@);
        }
        let idx = self.constants.len();
        self.constants.push(obj);
        proof {
            assert(final(self)@.consts =~= old(self)@.consts.push(obj@));
        }
        idx
    }

    /// Append a value to the pool unconditionally; used to reserve a
    /// function's slot before its body is compiled.
    fn push_constant(&mut self, obj: Object) -> (idx: usize)
        ensures
            final(self)@.consts == old(self)@.consts.push(obj@),
            idx == old(self)@.consts.len(),
            final(self)@.code == old(self)@.code,
            final(self)@.tab == old(self)@.tab,
    {
        let idx = self.constants.len();
        self.constants.push(obj);
        proof {
            assert(final(self)@.consts =~= old(self)@.consts.push(obj@));
        }
        idx
    }

    /// Compile one expression: exactly the translation `compile_expr_model`
    /// defines.
    #[verifier::rlimit(100)]
    #[verifier::spinoff_prover]
    pub fn compile_expression(&mut self, e: &Expression) -> (r: Result<(), CompileError>)
        ensures
            match (r, compile_expr_model(*e, old(self)@)) {
                (Ok(()), Ok(m)) => final(self)@ == m && old(self)@.consts.len()
                    <= final(self)@.consts.len() && old(self)@.code.len()
                    <= final(self)@.code.len() && final(self)@.tab == old(self)@.tab,
                (Err(e1), Err(e2)) => e1 == e2,
                _ => false,
            },
        decreases *e,
    {
        match e {
            Expression::Literal { value, .. } => {
                let obj = literal_object(value);
                let idx = self.add_scalar_constant(obj);
                self.emit(Instruction::LoadConstant(idx));
                Ok(())
            },
            Expression::Variable { name, .. } => {
                match self.symbol_table.resolve(name.as_str()) {
                    Some(sym) => {
                        let instr = match sym.scope {
                            SymbolScope::Global => Instruction::GetGlobal(sym.index),
                            SymbolScope::Local => Instruction::GetLocal(sym.index),
                            SymbolScope::Function => Instruction::LoadConstant(sym.index),
                        };
                        self.emit(instr);
                        Ok(())
                    },
                    None => Err(CompileError::UnresolvedIdentifier),
                }
            },
            Expression::Unary { operator, operand, .. } => {
                match self.compile_expression(&**operand) {
                    Err(err) => Err(err),
                    Ok(()) => {
                        match operator {
                            PrefixOp::Not => self.emit(Instruction::Not),
                            PrefixOp::Neg => self.emit(Instruction::Neg),
                        };
                        Ok(())
                    },
                }
            },
            Expression::Binary { left, operator, right, .. } => {
                match self.compile_expression(&**left) {
                    Err(err) => Err(err),
                    Ok(()) => match self.compile_expression(&**right) {
                        Err(err) => Err(err),
                        Ok(()) => {
                            let ghost before = self@.code;
                            match operator {
                                BinaryOp::Plus => {
                                    self.emit(Instruction::Add);
                                },
                                BinaryOp::Minus => {
                                    self.emit(Instruction::Sub);
                                },
                                BinaryOp::Multiply => {
                                    self.emit(Instruction::Mul);
                                },
                                BinaryOp::Divide => {
                                    self.emit(Instruction::Div);
                                },
                                BinaryOp::Modulo => {
                                    self.emit(Instruction::Mod);
                                },
                                BinaryOp::Equal => {
                                    self.emit(Instruction::Equal);
                                },
                                BinaryOp::NotEqual => {
                                    self.emit(Instruction::NotEqual);
                                },
                                BinaryOp::LessThan => {
                                    self.emit(Instruction::LessThan);
                                },
                                BinaryOp::GreaterThan => {
                                    self.emit(Instruction::GreaterThan);
                                },
                                BinaryOp::LessEqual => {
                                    self.emit(Instruction::GreaterThan);
                                    self.emit(Instruction::Not);
                                },
                                BinaryOp::GreaterEqual => {
                                    self.emit(Instruction::LessThan);
                                    self.emit(Instruction::Not);
                                },
                                BinaryOp::And => {
                                    self.emit(Instruction::And);
                                },
                                BinaryOp::Or => {
                                    self.emit(Instruction::Or);
                                },
                            };
                            proof {
                                assert(self@.code =~= before + binary_op_code(*operator));
                            }
                            Ok(())
                        },
                    },
                }
            },
            Expression::Call { callee, arguments, .. } => {
                match self.compile_expression(&**callee) {
                    Err(err) => Err(err),
                    Ok(()) => match self.compile_expression_list(arguments) {
                        Err(err) => Err(err),
                        Ok(()) => {
                            self.emit(Instruction::Call(arguments.len()));
                            Ok(())
                        },
                    },
                }
            },
            Expression::Index { object, index, .. } => {
                match self.compile_expression(&**object) {
                    Err(err) => Err(err),
                    Ok(()) => match self.compile_expression(&**index) {
                        Err(err) => Err(err),
                        Ok(()) => {
                            self.emit(Instruction::Index);
                            Ok(())
                        },
                    },
                }
            },
            Expression::Assign { target, value, .. } => {
                match &**target {
                    Expression::Variable { name, .. } => {
                        match self.symbol_table.resolve(name.as_str()) {
                            None => Err(CompileError::UnresolvedIdentifier),
                            Some(sym) => match sym.scope {
                                SymbolScope::Function => Err(
                                    CompileError::InvalidAssignmentTarget,
                                ),
                                _ => match self.compile_expression(&**value) {
                                    Err(err) => Err(err),
                                    Ok(()) => {
                                        let instr = match sym.scope {
                                            SymbolScope::Global => Instruction::SetGlobal(
                                                sym.index,
                                            ),
                                            _ => Instruction::SetLocal(sym.index),
                                        };
                                        self.emit(instr);
                                        Ok(())
                                    },
                                },
                            },
                        }
                    },
                    Expression::Index { object, index, .. } => {
                        match &**object {
                            Expression::Variable { name, .. } => {
                                match self.symbol_table.resolve(name.as_str()) {
                                    None => Err(CompileError::UnresolvedIdentifier),
                                    Some(sym) => match sym.scope {
                                        SymbolScope::Function => Err(
                                            CompileError::InvalidAssignmentTarget,
                                        ),
                                        _ => {
                                            let load = match sym.scope {
                                                SymbolScope::Global => Instruction::GetGlobal(
                                                    sym.index,
                                                ),
                                                _ => Instruction::GetLocal(sym.index),
                                            };
                                            self.emit(load);
                                            match self.compile_expression(&**index) {
                                                Err(err) => Err(err),
                                                Ok(()) => match self.compile_expression(
                                                    &**value,
                                                ) {
                                                    Err(err) => Err(err),
                                                    Ok(()) => {
                                                        self.emit(Instruction::SetIndex);
                                                        let store = match sym.scope {
                                                            SymbolScope::Global
                                                                => Instruction::SetGlobal(
                                                                sym.index,
                                                            ),
                                                            _ => Instruction::SetLocal(
                                                                sym.index,
                                                            ),
                                                        };
                                                        self.emit(store);
                                                        Ok(())
                                                    },
                                                },
                                            }
                                        },
                                    },
                                }
                            },
                            _ => Err(CompileError::InvalidAssignmentTarget),
                        }
                    },
                    _ => Err(CompileError::InvalidAssignmentTarget),
                }
            },
        }
    }

    /// Compile an argument list, left to right.
    fn compile_expression_list(&mut self, es: &Vec<Expression>) -> (r: Result<(), CompileError>)
        ensures
            match (r, compile_exprs_model(es@, old(self)@)) {
                (Ok(()), Ok(m)) => final(self)@ == m && old(self)@.consts.len()
                    <= final(self)@.consts.len() && old(self)@.code.len()
                    <= final(self)@.code.len() && final(self)@.tab == old(self)@.tab,
                (Err(e1), Err(e2)) => e1 == e2,
                _ => false,
            },
        decreases *es,
    {
        let mut i: usize = 0;
        proof {
            assert(es@.skip(0) =~= es@);
        }
        while i < es.len()
            invariant
                i <= es@.len(),
                compile_exprs_model(es@, old(self)@) == compile_exprs_model(es@.skip(i as int), self@),
                old(self)@.consts.len() <= self@.consts.len(),
                old(self)@.code.len() <= self@.code.len(),
                self@.tab == old(self)@.tab,
            decreases es@.len() - i,
        {
            proof {
                assert(decreases_to!(*es => es@[i as int]));
                assert(es@.skip(i as int).first() == es@[i as int]);
                assert(es@.skip(i as int).drop_first() =~= es@.skip(i as int + 1));
            }
            match self.compile_expression(&es[i]) {
                Err(err) => {
                    return Err(err);
                },
                Ok(()) => {},
            }
            i = i + 1;
        }
        proof {
            assert(es@.skip(es@.len() as int) =~= Seq::<Expression>::empty());
        }
        Ok(())
    }

    /// Compile one statement: exactly the translation `compile_stmt_model`
    /// defines.
    pub fn compile_statement(&mut self, s: &Statement) -> (r: Result<(), CompileError>)
        requires
            old(self)@.tab.len() >= 1,
        ensures
            match (r, compile_stmt_model(*s, old(self)@)) {
                (Ok(()), Ok(m)) => final(self)@ == m && old(self)@.consts.len()
                    <= final(self)@.consts.len() && old(self)@.code.len()
                    <= final(self)@.code.len() && final(self)@.tab.len() == old(
                    self,
                )@.tab.len(),
                (Err(e1), Err(e2)) => e1 == e2,
                _ => false,
            },
        decreases *s, 1int,
    {
        match s {
            Statement::Block { statements, .. } => {
                self.symbol_table.enter_block_scope();
                proof {
                    assert(self@ == enter_block_model(old(self)@));
                }
                match self.compile_statement_list(statements) {
                    Err(err) => Err(err),
                    Ok(()) => {
                        self.symbol_table.exit_scope();
                        Ok(())
                    },
                }
            },
            Statement::Expression { expression, .. } => {
                match self.compile_expression(&**expression) {
                    Err(err) => Err(err),
                    Ok(()) => {
                        self.emit(Instruction::Pop);
                        Ok(())
                    },
                }
            },
            Statement::Return { value, .. } => {
                let pushed: Result<(), CompileError> = match value {
                    Some(e) => self.compile_expression(&**e),
                    None => {
                        let idx = self.add_scalar_constant(Object::Null);
                        self.emit(Instruction::LoadConstant(idx));
                        Ok(())
                    },
                };
                match pushed {
                    Err(err) => Err(err),
                    Ok(()) => {
                        self.emit(Instruction::Return);
                        Ok(())
                    },
                }
            },
            Statement::VariableDeclaration { name, initializer, .. } => {
                let pushed: Result<(), CompileError> = match initializer {
                    Some(e) => self.compile_expression(&**e),
                    None => {
                        let idx = self.add_scalar_constant(Object::Null);
                        self.emit(Instruction::LoadConstant(idx));
                        Ok(())
                    },
                };
                match pushed {
                    Err(err) => Err(err),
                    Ok(()) => {
                        let sym = self.symbol_table.define(name.clone());
                        let store = match sym.scope {
                            SymbolScope::Global => Instruction::SetGlobal(sym.index),
                            _ => Instruction::SetLocal(sym.index),
                        };
                        self.emit(store);
                        self.emit(Instruction::Pop);
                        Ok(())
                    },
                }
            },
            Statement::If { condition, then_branch, else_branch, .. } => self.compile_if(
                Ghost(*s),
                &**condition,
                &**then_branch,
                else_branch,
            ),
            Statement::While { condition, body, .. } => self.compile_while(
                Ghost(*s),
                &**condition,
                &**body,
            ),
            Statement::For { init, condition, increment, body, .. } => self.compile_for(
                Ghost(*s),
                init,
                &**condition,
                increment,
                &**body,
            ),
            Statement::FunctionDeclaration { name, parameters, body, .. } => self.compile_fun(
                Ghost(*s),
                name,
                parameters,
                &**body,
            ),
        }
    }

    /// Compile an `if` statement: condition, a forward jump over the then
    /// branch, and (with an `else`) a second jump over the else branch, both
    /// patched once the branch lengths are known.
    #[verifier::rlimit(100)]
    #[verifier::spinoff_prover]
    fn compile_if(
        &mut self,
        s: Ghost<Statement>,
        condition: &Expression,
        then_branch: &Statement,
        else_branch: &Option<Box<Statement>>,
    ) -> (r: Result<(), CompileError>)
        requires
            old(self)@.tab.len() >= 1,
            s@ matches Statement::If { condition: c, then_branch: t, else_branch: e, .. }
                && *c == *condition && *t == *then_branch && e == *else_branch,
        ensures
            match (r, compile_stmt_model(s@, old(self)@)) {
                (Ok(()), Ok(m)) => final(self)@ == m && old(self)@.consts.len()
                    <= final(self)@.consts.len() && old(self)@.code.len()
                    <= final(self)@.code.len() && final(self)@.tab.len() == old(
                    self,
                )@.tab.len(),
                (Err(e1), Err(e2)) => e1 == e2,
                _ => false,
            },
        decreases s@, 0int,
    {
        match self.compile_expression(condition) {
            Err(err) => Err(err),
            Ok(()) => {
                let jnt_pos = self.emit(Instruction::JumpNotTruthy(0));
                proof {
                    assert(decreases_to!(s@, 0int => *then_branch, 1int));
                }
                match self.compile_statement(then_branch) {
                    Err(err) => Err(err),
                    Ok(()) => match else_branch {
                        None => {
                            let after = self.instructions.len();
                            self.patch(jnt_pos, Instruction::JumpNotTruthy(after));
                            Ok(())
                        },
                        Some(els) => {
                            let jmp_pos = self.emit(Instruction::Jump(0));
                            let after_then = self.instructions.len();
                            self.patch(jnt_pos, Instruction::JumpNotTruthy(after_then));
                            proof {
                                assert(decreases_to!(s@, 0int => **els, 1int));
                            }
                            match self.compile_statement(&**els) {
                                Err(err) => Err(err),
                                Ok(()) => {
                                    let after_else = self.instructions.len();
                                    self.patch(jmp_pos, Instruction::Jump(after_else));
                                    Ok(())
                                },
                            }
                        },
                    },
                }
            },
        }
    }

    /// Compile a `while` loop: condition at the top, a forward jump past the
    /// body, the body, and an unconditional jump back to the condition.
    #[verifier::rlimit(100)]
    #[verifier::spinoff_prover]
    fn compile_while(
        &mut self,
        s: Ghost<Statement>,
        condition: &Expression,
        body: &Statement,
    ) -> (r: Result<(), CompileError>)
        requires
            old(self)@.tab.len() >= 1,
            s@ matches Statement::While { condition: c, body: b, .. } && *c == *condition && *b
                == *body,
        ensures
            match (r, compile_stmt_model(s@, old(self)@)) {
                (Ok(()), Ok(m)) => final(self)@ == m && old(self)@.consts.len()
                    <= final(self)@.consts.len() && old(self)@.code.len()
                    <= final(self)@.code.len() && final(self)@.tab.len() == old(
                    self,
                )@.tab.len(),
                (Err(e1), Err(e2)) => e1 == e2,
                _ => false,
            },
        decreases s@, 0int,
    {
        let cond_pos = self.instructions.len();
        match self.compile_expression(condition) {
            Err(err) => Err(err),
            Ok(()) => {
                let jnt_pos = self.emit(Instruction::JumpNotTruthy(0));
                proof {
                    assert(decreases_to!(s@, 0int => *body, 1int));
                }
                match self.compile_statement(body) {
                    Err(err) => Err(err),
                    Ok(()) => {
                        self.emit(Instruction::Jump(cond_pos));
                        let after = self.instructions.len();
                        self.patch(jnt_pos, Instruction::JumpNotTruthy(after));
                        Ok(())
                    },
                }
            },
        }
    }

    /// Compile a `for` loop: it desugars to `init; while (condition) { body;
    /// increment; }` inside a scope of its own, so the induction variable is
    /// local to the loop.
    #[verifier::rlimit(100)]
    #[verifier::spinoff_prover]
    fn compile_for(
        &mut self,
        s: Ghost<Statement>,
        init: &Option<Box<Statement>>,
        condition: &Expression,
        increment: &Option<Box<Statement>>,
        body: &Statement,
    ) -> (r: Result<(), CompileError>)
        requires
            old(self)@.tab.len() >= 1,
            s@ matches Statement::For { init: i0, condition: c, increment: i1, body: b, .. }
                && i0 == *init && *c == *condition && i1 == *increment && *b == *body,
        ensures
            match (r, compile_stmt_model(s@, old(self)@)) {
                (Ok(()), Ok(m)) => final(self)@ == m && old(self)@.consts.len()
                    <= final(self)@.consts.len() && old(self)@.code.len()
                    <= final(self)@.code.len() && final(self)@.tab.len() == old(
                    self,
                )@.tab.len(),
                (Err(e1), Err(e2)) => e1 == e2,
                _ => false,
            },
        decreases s@, 0int,
    {
        self.symbol_table.enter_block_scope();
        proof {
            assert(self@ == enter_block_model(old(self)@));
        }
        let inited: Result<(), CompileError> = match init {
            Some(s0) => {
                proof {
                    assert(decreases_to!(s@, 0int => **s0, 1int));
                }
                self.compile_statement(&**s0)
            },
            None => Ok(()),
        };
        match inited {
            Err(err) => Err(err),
            Ok(()) => {
                let cond_pos = self.instructions.len();
                match self.compile_expression(condition) {
                    Err(err) => Err(err),
                    Ok(()) => {
                        let jnt_pos = self.emit(Instruction::JumpNotTruthy(0));
                        proof {
                            assert(decreases_to!(s@, 0int => *body, 1int));
                        }
                        match self.compile_statement(body) {
                            Err(err) => Err(err),
                            Ok(()) => {
                                let incremented: Result<(), CompileError> = match increment {
                                    Some(s1) => {
                                        proof {
                                            assert(decreases_to!(s@, 0int => **s1, 1int));
                                        }
                                        self.compile_statement(&**s1)
                                    },
                                    None => Ok(()),
                                };
                                match incremented {
                                    Err(err) => Err(err),
                                    Ok(()) => {
                                        self.emit(Instruction::Jump(cond_pos));
                                        let after = self.instructions.len();
                                        self.patch(jnt_pos, Instruction::JumpNotTruthy(after));
                                        self.symbol_table.exit_scope();
                                        Ok(())
                                    },
                                }
                            },
                        }
                    },
                }
            },
        }
    }

    /// Compile a function declaration: reserve the function's pool slot,
    /// compile the body into a fresh buffer within a fresh scope seeded with
    /// the function's own name and its parameters, append the implicit
    /// `Null` return, record the finished function in the pool, and bind the
    /// function's name in the enclosing scope.
    #[verifier::rlimit(100)]
    #[verifier::spinoff_prover]
    fn compile_fun(
        &mut self,
        s: Ghost<Statement>,
        name: &String,
        parameters: &Vec<String>,
        body: &Statement,
    ) -> (r: Result<(), CompileError>)
        requires
            old(self)@.tab.len() >= 1,
            s@ matches Statement::FunctionDeclaration { name: n, parameters: p, body: b, .. }
                && n == *name && p == *parameters && *b == *body,
        ensures
            match (r, compile_stmt_model(s@, old(self)@)) {
                (Ok(()), Ok(m)) => final(self)@ == m && old(self)@.consts.len()
                    <= final(self)@.consts.len() && old(self)@.code.len()
                    <= final(self)@.code.len() && final(self)@.tab.len() == old(
                    self,
                )@.tab.len(),
                (Err(e1), Err(e2)) => e1 == e2,
                _ => false,
            },
        decreases s@, 0int,
    {
        if has_duplicate_names(parameters) {
            return Err(CompileError::DuplicateParameter);
        }
        let fidx = self.push_constant(
            Object::Function(
                Function { instructions: Vec::new(), num_locals: 0, num_parameters: 0 },
            ),
        );
        self.symbol_table.enter_function_scope();
        self.symbol_table.define_function_name(name.clone(), fidx);
        proof {
            assert(self@.tab =~= enter_function_model(
                CompModel {
                    code: old(self)@.code,
                    consts: old(self)@.consts.push(placeholder_model()),
                    tab: old(self)@.tab,
                },
                name@,
                fidx as int,
            ));
        }
        let ghost names = names_model(parameters@);
        let ghost tab_start = self@.tab;
        let mut k: usize = 0;
        proof {
            assert(names.skip(0) =~= names);
        }
        while k < parameters.len()
            invariant
                k <= parameters@.len(),
                names == names_model(parameters@),
                self@.tab.len() == tab_start.len(),
                tab_start.len() == old(self)@.tab.len() + 1,
                define_params_model(names, tab_start) == define_params_model(
                    names.skip(k as int),
                    self@.tab,
                ),
                self@.code == old(self)@.code,
                self@.consts == old(self)@.consts.push(placeholder_model()),
            decreases parameters@.len() - k,
        {
            proof {
                assert(names.skip(k as int).first() == names[k as int]);
                assert(names.skip(k as int).drop_first() =~= names.skip(k as int + 1));
            }
            self.symbol_table.define(parameters[k].clone());
            k = k + 1;
        }
        proof {
            assert(names.skip(names.len() as int) =~= Seq::<Seq<char>>::empty());
        }
        let mut saved: Vec<Instruction> = Vec::new();
        core::mem::swap(&mut saved, &mut self.instructions);
        let ghost st_body = CompModel {
            code: Seq::empty(),
            consts: old(self)@.consts.push(placeholder_model()),
            tab: define_params_model(
                names_model(parameters@),
                enter_function_model(
                    CompModel {
                        code: old(self)@.code,
                        consts: old(self)@.consts.push(placeholder_model()),
                        tab: old(self)@.tab,
                    },
                    name@,
                    fidx as int,
                ),
            ),
        };
        proof {
            assert(self@.code =~= Seq::<Instruction>::empty());
            assert(self@ == st_body);
            assert(st_body.consts.len() == fidx + 1);
            assert(decreases_to!(s@, 0int => *body, 1int));
        }
        match self.compile_statement(body) {
            Err(err) => Err(err),
            Ok(()) => {
                let nidx = self.add_scalar_constant(Object::Null);
                self.emit(Instruction::LoadConstant(nidx));
                self.emit(Instruction::Return);
                core::mem::swap(&mut saved, &mut self.instructions);
                proof {
                    assert(self@.tab.len() >= 2);
                }
                let num_locals = self.symbol_table.exit_function_scope();
                let f = Function {
                    instructions: saved,
                    num_locals,
                    num_parameters: parameters.len(),
                };
                proof {
                    assert(self@.consts.len() >= st_body.consts.len());
                    assert(fidx < self.constants@.len());
                }
                self.constants[fidx] = Object::Function(f);
                let sym = self.symbol_table.define(name.clone());
                self.emit(Instruction::LoadConstant(fidx));
                let store = match sym.scope {
                    SymbolScope::Global => Instruction::SetGlobal(sym.index),
                    _ => Instruction::SetLocal(sym.index),
                };
                self.emit(store);
                self.emit(Instruction::Pop);
                proof {
                    let m = compile_stmt_model(s@, old(self)@)->Ok_0;
                    assert(final(self)@.consts =~= m.consts);
                    assert(final(self)@.code =~= m.code);
                }
                Ok(())
            },
        }
    }

    /// Compile a statement sequence, in order.
    pub fn compile_statement_list(&mut self, ss: &Vec<Statement>) -> (r: Result<
        (),
        CompileError,
    >)
        requires
            old(self)@.tab.len() >= 1,
        ensures
            match (r, compile_stmts_model(ss@, old(self)@)) {
                (Ok(()), Ok(m)) => final(self)@ == m && old(self)@.consts.len()
                    <= final(self)@.consts.len() && old(self)@.code.len()
                    <= final(self)@.code.len() && final(self)@.tab.len() == old(
                    self,
                )@.tab.len(),
                (Err(e1), Err(e2)) => e1 == e2,
            _ => false,
            },
        decreases *ss, 0int,
    {
        let mut i: usize = 0;
        proof {
            assert(ss@.skip(0) =~= ss@);
        }
        while i < ss.len()
            invariant
                i <= ss@.len(),
                compile_stmts_model(ss@, old(self)@) == compile_stmts_model(
                    ss@.skip(i as int),
                    self@,
                ),
                old(self)@.consts.len() <= self@.consts.len(),
                old(self)@.code.len() <= self@.code.len(),
                self@.tab.len() == old(self)@.tab.len(),
            decreases ss@.len() - i,
        {
            proof {
                assert(decreases_to!(*ss, 0int => ss@[i as int], 1int));
                assert(ss@.skip(i as int).first() == ss@[i as int]);
                assert(ss@.skip(i as int).drop_first() =~= ss@.skip(i as int + 1));
            }
            match self.compile_statement(&ss[i]) {
                Err(err) => {
                    return Err(err);
                },
                Ok(()) => {},
            }
            i = i + 1;
        }
        proof {
            assert(ss@.skip(ss@.len() as int) =~= Seq::<Statement>::empty());
        }
        Ok(())
    }
}

/// Compile a whole unit: on success, the unit's instruction sequence and
/// constant pool; on failure, why compilation was rejected — and no partial
/// bytecode.
pub fn compile(program: &Vec<Statement>) -> (r: Result<
    (Vec<Instruction>, Vec<Object>),
    CompileError,
>)
    ensures
        match (r, compile_model(program@)) {
            (Ok(bytecode), Ok(m)) => bytecode.0@ == m.code && consts_model(bytecode.1@)
                == m.consts,
            (Err(e1), Err(e2)) => e1 == e2,
            _ => false,
        },
{
    let mut cg = CodeGen::new();
    match cg.compile_statement_list(program) {
        Err(err) => Err(err),
        Ok(()) => Ok(cg.into_bytecode()),
    }
}

} // verus!
