//! The compile-time symbol table: a stack of lexical scope levels mapping
//! names to storage slots.
//!
//! The outermost level assigns `Global` slots. Each function body (and the
//! table created by [`SymbolTable::new_enclosed`]) starts a fresh `Local`
//! numbering at zero. Every block (`{ }`, `if`/`while`/`for` bodies) opens a
//! nested level of its own: names defined there disappear when the block
//! ends, but slot numbering continues from the enclosing level and is handed
//! back on exit, so sibling declarations in one function never share a slot.
//!
//! Locals of an *enclosing* function are not capturable: the language has no
//! closures, so a name whose innermost definition lies in an outer function's
//! local scope does not resolve.
use vstd::prelude::*;

verus! {

/// Where a resolved name lives: the flat globals table, a local slot of the
/// current frame, or the function currently being compiled (its own name,
/// used for recursion).
#[derive(Debug, Clone, Copy, PartialEq, Eq, Structural)]
pub enum SymbolScope {
    Global,
    Local,
    Function,
}

/// One name binding: the name, the kind of storage it resolved to, and the
/// slot index within that storage.
#[derive(Debug)]
pub struct Symbol {
    pub name: String,
    pub scope: SymbolScope,
    pub index: usize,
}

/// The mathematical value of a [`Symbol`].
pub ghost struct SymbolModel {
    pub name: Seq<char>,
    pub scope: SymbolScope,
    pub index: nat,
}

impl View for Symbol {
    type V = SymbolModel;

    open spec fn view(&self) -> SymbolModel {
        SymbolModel { name: self.name@, scope: self.scope, index: self.index as nat }
    }
}

impl Clone for Symbol {
    /// Cloning a symbol preserves its value exactly.
    fn clone(&self) -> (res: Self)
        ensures
            res == *self,
    {
        Symbol { name: self.name.clone(), scope: self.scope, index: self.index }
    }
}

/// One scope level: the bindings made at this level, the next slot index to
/// hand out, the storage kind this level assigns, and whether the level is a
/// function boundary (the root and each function body are; blocks are not).
pub struct ScopeLevel {
    pub definitions: Vec<Symbol>,
    pub next_index: usize,
    pub kind: SymbolScope,
    pub is_function: bool,
}

/// The mathematical value of one scope level.
pub ghost struct LevelModel {
    pub syms: Seq<SymbolModel>,
    pub next: nat,
    pub kind: SymbolScope,
    pub is_function: bool,
}

impl View for ScopeLevel {
    type V = LevelModel;

    open spec fn view(&self) -> LevelModel {
        LevelModel {
            syms: Seq::new(self.definitions@.len(), |i: int| self.definitions@[i]@),
            next: self.next_index as nat,
            kind: self.kind,
            is_function: self.is_function,
        }
    }
}

/// The chained scope resolver. Viewed as a sequence of levels, innermost
/// last.
pub struct SymbolTable {
    pub levels: Vec<ScopeLevel>,
}

impl View for SymbolTable {
    type V = Seq<LevelModel>;

    open spec fn view(&self) -> Seq<LevelModel> {
        Seq::new(self.levels@.len(), |i: int| self.levels@[i]@)
    }
}

/// The innermost match for `name` among the bindings of one level: the last
/// binding wins, so redeclaring a name in the same scope shadows the earlier
/// binding.
pub open spec fn find_in_level(syms: Seq<SymbolModel>, name: Seq<char>) -> Option<SymbolModel>
    decreases syms,
{
    if syms.len() == 0 {
        None
    } else if syms.last().name == name {
        Some(syms.last())
    } else {
        find_in_level(syms.drop_last(), name)
    }
}

/// Resolution over a stack of levels, innermost first. `crossed` records
/// whether a function boundary has already been passed on the way out: past
/// one, only `Global` bindings remain reachable — a matching `Local` or
/// `Function` binding of an enclosing function makes the name unresolvable
/// rather than silently binding further out.
pub open spec fn resolve_model(
    levels: Seq<LevelModel>,
    name: Seq<char>,
    crossed: bool,
) -> Option<SymbolModel>
    decreases levels,
{
    if levels.len() == 0 {
        None
    } else {
        let top = levels.last();
        match find_in_level(top.syms, name) {
            Some(sym) => if !crossed || sym.scope is Global {
                Some(sym)
            } else {
                None
            },
            None => resolve_model(levels.drop_last(), name, crossed || top.is_function),
        }
    }
}

/// What a table resolves `name` to.
pub open spec fn resolves_to(levels: Seq<LevelModel>, name: Seq<char>) -> Option<SymbolModel> {
    resolve_model(levels, name, false)
}

/// A table is well formed when it has at least one level, the outermost
/// level assigns `Global` storage and is a function boundary, and every
/// enclosed level assigns `Local` storage.
pub open spec fn table_wf(levels: Seq<LevelModel>) -> bool {
    &&& levels.len() >= 1
    &&& levels[0].kind is Global
    &&& levels[0].is_function
    &&& forall|i: int| 1 <= i < levels.len() ==> (#[trigger] levels[i]).kind is Local
}

/// The result of defining `name` in the innermost level of `levels`: the new
/// binding takes the level's storage kind and its next free slot index. Slot
/// numbering is capped at the machine word: a program would need more
/// declarations than the address space holds to reach the cap.
pub open spec fn define_model(levels: Seq<LevelModel>, name: Seq<char>) -> (
    Seq<LevelModel>,
    SymbolModel,
)
    recommends
        levels.len() >= 1,
{
    let top = levels.last();
    let sym = SymbolModel { name: name, scope: top.kind, index: top.next };
    let bumped = if top.next < usize::MAX as nat {
        (top.next + 1) as nat
    } else {
        top.next
    };
    (
        levels.update(
            levels.len() - 1,
            LevelModel {
                syms: top.syms.push(sym),
                next: bumped,
                kind: top.kind,
                is_function: top.is_function,
            },
        ),
        sym,
    )
}

impl SymbolTable {
    /// A fresh resolver holding only the outermost (global) scope.
    pub fn new() -> (t: SymbolTable)
        ensures
            t@ =~= seq![
                LevelModel {
                    syms: Seq::empty(),
                    next: 0,
                    kind: SymbolScope::Global,
                    is_function: true,
                },
            ],
            table_wf(t@),
    {
        let mut levels: Vec<ScopeLevel> = Vec::new();
        levels.push(
            ScopeLevel {
                definitions: Vec::new(),
                next_index: 0,
                kind: SymbolScope::Global,
                is_function: true,
            },
        );
        let t = SymbolTable { levels };
        proof {
            assert(t@[0].syms =~= Seq::<SymbolModel>::empty());
        }
        t
    }

    /// A resolver enclosed in `outer`: one fresh function scope whose local
    /// slot numbering starts at zero.
    pub fn new_enclosed(outer: SymbolTable) -> (t: SymbolTable)
        ensures
            t@ =~= outer@.push(
                LevelModel {
                    syms: Seq::empty(),
                    next: 0,
                    kind: SymbolScope::Local,
                    is_function: true,
                },
            ),
            table_wf(outer@) ==> table_wf(t@),
    {
        let mut t = outer;
        t.enter_function_scope();
        t
    }

    /// Open a function scope: local slots restart at zero and names defined
    /// outside the new scope are reachable only if global.
    pub fn enter_function_scope(&mut self)
        ensures
            final(self)@ =~= old(self)@.push(
                LevelModel {
                    syms: Seq::empty(),
                    next: 0,
                    kind: SymbolScope::Local,
                    is_function: true,
                },
            ),
            table_wf(old(self)@) ==> table_wf(final(self)@),
    {
        self.levels.push(
            ScopeLevel {
                definitions: Vec::new(),
                next_index: 0,
                kind: SymbolScope::Local,
                is_function: true,
            },
        );
        proof {
            assert(self@.last().syms =~= Seq::<SymbolModel>::empty());
            assert(forall|i: int|
                0 <= i < old(self)@.len() ==> self@[i] == old(self)@[i]);
        }
    }

    /// Open a block scope: names defined inside it vanish when it closes,
    /// but slot numbering continues from the enclosing level.
    pub fn enter_block_scope(&mut self)
        requires
            old(self)@.len() >= 1,
        ensures
            final(self)@ =~= old(self)@.push(
                LevelModel {
                    syms: Seq::empty(),
                    next: old(self)@.last().next,
                    kind: old(self)@.last().kind,
                    is_function: false,
                },
            ),
            table_wf(old(self)@) && old(self)@.len() >= 2 ==> table_wf(final(self)@),
    {
        let n = self.levels.len();
        let next = self.levels[n - 1].next_index;
        let kind = self.levels[n - 1].kind;
        self.levels.push(
            ScopeLevel { definitions: Vec::new(), next_index: next, kind, is_function: false },
        );
        proof {
            assert(self@.last().syms =~= Seq::<SymbolModel>::empty());
            assert(forall|i: int|
                0 <= i < old(self)@.len() ==> self@[i] == old(self)@[i]);
        }
    }

    /// Close the innermost scope, handing its slot counter back to the level
    /// below (so later declarations in the enclosing level never reuse a slot
    /// of the closed block). Returns the closed level's slot counter.
    pub fn exit_scope(&mut self) -> (highest: usize)
        requires
            old(self)@.len() >= 2,
        ensures
            highest as nat == old(self)@.last().next,
            final(self)@ =~= old(self)@.drop_last().update(
                old(self)@.len() - 2,
                LevelModel {
                    syms: old(self)@[old(self)@.len() - 2].syms,
                    next: old(self)@.last().next,
                    kind: old(self)@[old(self)@.len() - 2].kind,
                    is_function: old(self)@[old(self)@.len() - 2].is_function,
                },
            ),
            table_wf(old(self)@) ==> table_wf(final(self)@),
    {
        let popped = self.levels.pop().unwrap();
        let n = self.levels.len();
        let prev_next = self.levels[n - 1].next_index;
        proof {
            assert(self.levels@[n - 1]@ == old(self)@[old(self)@.len() - 2]);
        }
        self.set_top_next(popped.next_index);
        proof {
            if table_wf(old(self)@) {
                assert(self@[0].kind == old(self)@[0].kind);
                assert(self@[0].is_function == old(self)@[0].is_function);
                assert forall|i: int| 1 <= i < self@.len() implies (#[trigger] self@[i]).kind
                    is Local by {
                    assert(self@[i].kind == old(self)@[i].kind);
                }
                assert(table_wf(self@));
            }
        }
        popped.next_index
    }

    /// Close the innermost scope without handing the slot counter back: used
    /// when a function body ends, since its slots belong to its own frame.
    /// Returns the number of slots the closed function scope used.
    pub fn exit_function_scope(&mut self) -> (num_locals: usize)
        requires
            old(self)@.len() >= 2,
        ensures
            num_locals as nat == old(self)@.last().next,
            final(self)@ =~= old(self)@.drop_last(),
            table_wf(old(self)@) ==> table_wf(final(self)@),
    {
        let popped = self.levels.pop().unwrap();
        proof {
            assert(self@ =~= old(self)@.drop_last());
            if table_wf(old(self)@) {
                assert forall|i: int| 1 <= i < self@.len() implies (#[trigger] self@[i]).kind
                    is Local by {
                    assert(self@[i] == old(self)@[i]);
                }
                assert(table_wf(self@));
            }
        }
        popped.next_index
    }

    /// Overwrite the innermost level's slot counter.
    fn set_top_next(&mut self, next: usize)
        requires
            old(self)@.len() >= 1,
        ensures
            final(self)@ =~= old(self)@.update(
                old(self)@.len() - 1,
                LevelModel {
                    syms: old(self)@.last().syms,
                    next: next as nat,
                    kind: old(self)@.last().kind,
                    is_function: old(self)@.last().is_function,
                },
            ),
    {
        let n = self.levels.len();
        let lvl = &mut self.levels[n - 1];
        // hold the other fields fixed while replacing the counter
        lvl.next_index = next;
    }

    /// How many levels the table currently holds.
    pub fn depth(&self) -> (n: usize)
        ensures
            n == self@.len(),
    {
        self.levels.len()
    }

    /// Allocate the next free slot in the innermost scope and bind `name` to
    /// it. Redefining a name in the same scope shadows the earlier binding:
    /// the last declaration wins.
    pub fn define(&mut self, name: String) -> (sym: Symbol)
        requires
            old(self)@.len() >= 1,
        ensures
            (final(self)@, sym@) == define_model(old(self)@, name@),
    {
        let n = self.levels.len();
        let next = self.levels[n - 1].next_index;
        let kind = self.levels[n - 1].kind;
        let sym = Symbol { name, scope: kind, index: next };
        let ghost old_top = self@.last();
        let copy = sym.clone();
        let lvl = &mut self.levels[n - 1];
        lvl.definitions.push(copy);
        if lvl.next_index < usize::MAX {
            lvl.next_index = lvl.next_index + 1;
        }
        proof {
            assert(self@.last().syms =~= old_top.syms.push(sym@));
            assert(self@ =~= define_model(old(self)@, sym@.name).0);
        }
        sym
    }

    /// Bind, in the innermost scope, `name` to the function currently being
    /// compiled, without consuming a storage slot: `index` is the function's
    /// reserved constant-pool entry, so the body can refer to itself.
    pub fn define_function_name(&mut self, name: String, index: usize)
        requires
            old(self)@.len() >= 1,
        ensures
            final(self)@ =~= old(self)@.update(
                old(self)@.len() - 1,
                LevelModel {
                    syms: old(self)@.last().syms.push(
                        SymbolModel {
                            name: name@,
                            scope: SymbolScope::Function,
                            index: index as nat,
                        },
                    ),
                    next: old(self)@.last().next,
                    kind: old(self)@.last().kind,
                    is_function: old(self)@.last().is_function,
                },
            ),
    {
        let n = self.levels.len();
        let ghost old_top = self@.last();
        let ghost nm = name@;
        let lvl = &mut self.levels[n - 1];
        lvl.definitions.push(Symbol { name, scope: SymbolScope::Function, index });
        proof {
            assert(self@.last().syms =~= old_top.syms.push(
                SymbolModel { name: nm, scope: SymbolScope::Function, index: index as nat },
            ));
        }
    }

    /// Look `name` up through the scope chain, innermost first; within one
    /// level the most recent binding wins. Returns `None` when no reachable
    /// scope defines the name.
    pub fn resolve(&self, name: &str) -> (res: Option<Symbol>)
        ensures
            match res {
                Some(sym) => resolves_to(self@, name@) == Some(sym@),
                None => resolves_to(self@, name@) is None,
            },
    {
        let key: String = name.to_owned();
        let mut i = self.levels.len();
        let mut crossed = false;
        proof {
            assert(self@.take(i as int) =~= self@);
        }
        while i > 0
            invariant
                i <= self.levels@.len(),
                resolves_to(self@, name@) == resolve_model(self@.take(i as int), name@, crossed),
                key@ == name@,
            decreases i,
        {
            i = i - 1;
            let lvl = &self.levels[i];
            let found = Self::find_last(&lvl.definitions, &key);
            proof {
                assert(self@.take(i + 1).last() == self@[i as int]);
                assert(self@.take(i + 1).drop_last() =~= self@.take(i as int));
            }
            match found {
                Some(sym) => {
                    let reachable = !crossed || match sym.scope {
                        SymbolScope::Global => true,
                        _ => false,
                    };
                    if reachable {
                        return Some(sym);
                    } else {
                        return None;
                    }
                },
                None => {
                    crossed = crossed || lvl.is_function;
                },
            }
        }
        proof {
            assert(self@.take(0) =~= Seq::<LevelModel>::empty());
        }
        None
    }

    /// The innermost binding for `name` within one level's definitions.
    fn find_last(defs: &Vec<Symbol>, name: &String) -> (res: Option<Symbol>)
        ensures
            match res {
                Some(sym) => find_in_level(
                    Seq::new(defs@.len(), |i: int| defs@[i]@),
                    name@,
                ) == Some(sym@),
                None => find_in_level(Seq::new(defs@.len(), |i: int| defs@[i]@), name@) is None,
            },
    {
        let ghost syms = Seq::new(defs@.len(), |i: int| defs@[i]@);
        let mut j = defs.len();
        proof {
            assert(syms.take(j as int) =~= syms);
        }
        while j > 0
            invariant
                j <= defs@.len(),
                syms == Seq::new(defs@.len(), |i: int| defs@[i]@),
                find_in_level(syms, name@) == find_in_level(syms.take(j as int), name@),
            decreases j,
        {
            j = j - 1;
            proof {
                assert(syms.take(j + 1).last() == syms[j as int]);
                assert(syms.take(j + 1).drop_last() =~= syms.take(j as int));
            }
            if defs[j].name == *name {
                return Some(defs[j].clone());
            }
        }
        proof {
            assert(syms.take(0) =~= Seq::<SymbolModel>::empty());
        }
        None
    }
}

} // verus!
