//! The scope stack: a stack of lexical scopes holding variables, labels and
//! enumeration constants, tagged with the kind of construct that opened them.
//!
//! Lookup rules differ deliberately per namespace:
//! - variables: innermost-first, shadowing allowed across scopes, no two
//!   variables of one name in the same scope;
//! - labels: one namespace over the whole open chain (labels are function
//!   scoped in C);
//! - enumeration constants: outermost-first, the converse of variables.

use vstd::prelude::*;

use crate::types::{type_view, Type, TypeV};

verus! {

/// One symbol held by a scope.
#[derive(Debug)]
pub enum Symbol {
    Var { name: String, ty: Type },
    Label { name: String },
    EnumConstant { name: String, ty: Type },
}

/// Mathematical model of a symbol.
#[verifier::ext_equal]
pub ghost enum SymbolV {
    Var { name: Seq<char>, ty: TypeV },
    Label { name: Seq<char> },
    EnumConstant { name: Seq<char>, ty: TypeV },
}

impl View for Symbol {
    type V = SymbolV;

    open spec fn view(&self) -> SymbolV {
        match self {
            Symbol::Var { name, ty } => SymbolV::Var { name: name@, ty: type_view(*ty) },
            Symbol::Label { name } => SymbolV::Label { name: name@ },
            Symbol::EnumConstant { name, ty } => SymbolV::EnumConstant {
                name: name@,
                ty: type_view(*ty),
            },
        }
    }
}

/// What kind of construct opened a scope; drives every control-flow
/// legality check.
#[derive(Debug)]
pub enum ScopeKind {
    Regular,
    Fn(Type),
    Switch(Type),
    Loop,
}

/// Mathematical model of a scope kind.
pub ghost enum ScopeKindV {
    Regular,
    Fn(TypeV),
    Switch(TypeV),
    Loop,
}

impl View for ScopeKind {
    type V = ScopeKindV;

    open spec fn view(&self) -> ScopeKindV {
        match self {
            ScopeKind::Regular => ScopeKindV::Regular,
            ScopeKind::Fn(t) => ScopeKindV::Fn(type_view(*t)),
            ScopeKind::Switch(t) => ScopeKindV::Switch(type_view(*t)),
            ScopeKind::Loop => ScopeKindV::Loop,
        }
    }
}

/// One lexical scope: an ordered list of symbols plus its kind.
#[derive(Debug)]
pub struct Scope {
    pub symbols: Vec<Symbol>,
    pub kind: ScopeKind,
}

/// Mathematical model of a scope.
#[verifier::ext_equal]
pub ghost struct ScopeV {
    pub symbols: Seq<SymbolV>,
    pub kind: ScopeKindV,
}

impl View for Scope {
    type V = ScopeV;

    open spec fn view(&self) -> ScopeV {
        ScopeV {
            symbols: Seq::new(self.symbols@.len(), |i: int| self.symbols@[i]@),
            kind: self.kind@,
        }
    }
}

/// The stack a fresh analysis starts from: one regular scope, empty.
pub open spec fn init_stack() -> Seq<ScopeV> {
    seq![ScopeV { symbols: Seq::empty(), kind: ScopeKindV::Regular }]
}

/// The stack with one symbol appended to its innermost scope.
pub open spec fn push_sym(st: Seq<ScopeV>, s: SymbolV) -> Seq<ScopeV>
    recommends
        st.len() >= 1,
{
    st.update(
        st.len() - 1,
        ScopeV { symbols: st.last().symbols.push(s), kind: st.last().kind },
    )
}

/// Last-declared-first search for a variable among one scope's symbols.
pub open spec fn scope_find_var(syms: Seq<SymbolV>, name: Seq<char>) -> Option<TypeV>
    decreases syms,
{
    if syms.len() == 0 {
        None
    } else if syms.last() matches SymbolV::Var { name: n, ty } && n == name {
        Some(syms.last()->Var_ty)
    } else {
        scope_find_var(syms.drop_last(), name)
    }
}

/// Whether one scope's symbols hold a variable of this name.
pub open spec fn scope_has_var(syms: Seq<SymbolV>, name: Seq<char>) -> bool {
    scope_find_var(syms, name) is Some
}

/// Innermost-first search for a variable: the defining statement of
/// lexical shadowing.
pub open spec fn stack_find_var(st: Seq<ScopeV>, name: Seq<char>) -> Option<TypeV>
    decreases st,
{
    if st.len() == 0 {
        None
    } else {
        match scope_find_var(st.last().symbols, name) {
            Some(t) => Some(t),
            None => stack_find_var(st.drop_last(), name),
        }
    }
}

/// Whether one scope's symbols hold a label of this name.
pub open spec fn scope_has_label(syms: Seq<SymbolV>, name: Seq<char>) -> bool {
    exists|i: int|
        0 <= i < syms.len() && ((#[trigger] syms[i]) matches SymbolV::Label { name: n } && n
            == name)
}

/// Whether any scope of the chain holds a label of this name: the label
/// namespace spans the whole chain.
pub open spec fn stack_has_label(st: Seq<ScopeV>, name: Seq<char>) -> bool {
    exists|i: int| 0 <= i < st.len() && scope_has_label(#[trigger] st[i].symbols, name)
}

/// First-declared-first search for an enumeration constant among one
/// scope's symbols.
pub open spec fn scope_find_enum(syms: Seq<SymbolV>, name: Seq<char>) -> Option<TypeV>
    decreases syms,
{
    if syms.len() == 0 {
        None
    } else if syms.first() matches SymbolV::EnumConstant { name: n, ty } && n == name {
        Some(syms.first()->EnumConstant_ty)
    } else {
        scope_find_enum(syms.drop_first(), name)
    }
}

/// Whether one scope's symbols hold an enumeration constant of this name.
pub open spec fn scope_has_enum(syms: Seq<SymbolV>, name: Seq<char>) -> bool {
    scope_find_enum(syms, name) is Some
}

/// Outermost-first search for an enumeration constant: the converse order
/// from variables, preserved deliberately.
pub open spec fn stack_find_enum(st: Seq<ScopeV>, name: Seq<char>) -> Option<TypeV>
    decreases st,
{
    if st.len() == 0 {
        None
    } else {
        match scope_find_enum(st.first().symbols, name) {
            Some(t) => Some(t),
            None => stack_find_enum(st.drop_first(), name),
        }
    }
}

/// The return type of the nearest enclosing function scope, if any.
pub open spec fn stack_fn_ty(st: Seq<ScopeV>) -> Option<TypeV>
    decreases st,
{
    if st.len() == 0 {
        None
    } else if st.last().kind matches ScopeKindV::Fn(t) {
        Some(st.last().kind->Fn_0)
    } else {
        stack_fn_ty(st.drop_last())
    }
}

/// The discriminant type of the nearest enclosing switch scope, if any.
pub open spec fn stack_switch_ty(st: Seq<ScopeV>) -> Option<TypeV>
    decreases st,
{
    if st.len() == 0 {
        None
    } else if st.last().kind matches ScopeKindV::Switch(t) {
        Some(st.last().kind->Switch_0)
    } else {
        stack_switch_ty(st.drop_last())
    }
}

/// Whether some scope of the chain was opened by a loop.
pub open spec fn stack_in_loop(st: Seq<ScopeV>) -> bool {
    exists|i: int| 0 <= i < st.len() && (#[trigger] st[i].kind) is Loop
}

/// Whether some scope of the chain was opened by a switch.
pub open spec fn stack_in_switch(st: Seq<ScopeV>) -> bool {
    exists|i: int| 0 <= i < st.len() && (#[trigger] st[i].kind) is Switch
}

/// The shared symbol table of one analysis pass: a stack of scopes,
/// never empty.
pub struct SemanticContext {
    symbol_table: Vec<Scope>,
}

impl View for SemanticContext {
    type V = Seq<ScopeV>;

    closed spec fn view(&self) -> Seq<ScopeV> {
        Seq::new(self.symbol_table@.len(), |i: int| self.symbol_table@[i]@)
    }
}

impl SemanticContext {
    /// A fresh stack holding one empty regular scope.
    pub fn new() -> (r: SemanticContext)
        ensures
            r@ == init_stack(),
    {
        let mut symbol_table: Vec<Scope> = Vec::new();
        symbol_table.push(Scope { symbols: Vec::new(), kind: ScopeKind::Regular });
        let r = SemanticContext { symbol_table };
        proof {
            assert(r@ =~~= init_stack());
        }
        r
    }

    /// Opens a new empty scope of the given kind.
    pub fn push_scope(&mut self, kind: ScopeKind)
        ensures
            final(self)@ == old(self)@.push(
                ScopeV { symbols: Seq::empty(), kind: kind@ },
            ),
    {
        let ghost k = kind@;
        self.symbol_table.push(Scope { symbols: Vec::new(), kind });
        proof {
            assert(final(self)@ =~~= old(self)@.push(ScopeV { symbols: Seq::empty(), kind: k }));
        }
    }

    /// Closes the innermost scope; the matching partner of `push_scope` on
    /// every exit path.  The outermost scope is never closed: the stack
    /// stays nonempty.
    pub fn pop_scope(&mut self)
        requires
            old(self)@.len() >= 2,
        ensures
            final(self)@ == old(self)@.drop_last(),
    {
        let _ = self.symbol_table.pop();
        proof {
            assert(final(self)@ =~= old(self)@.drop_last());
        }
    }

    /// How many scopes are open.
    pub fn depth(&self) -> (n: usize)
        ensures
            n == self@.len(),
    {
        self.symbol_table.len()
    }

    /// The innermost scope.
    pub fn curr_scope(&self) -> (r: &Scope)
        requires
            self@.len() >= 1,
        ensures
            r@ == self@.last(),
    {
        let n = self.symbol_table.len();
        &self.symbol_table[n - 1]
    }

    /// The innermost scope, exclusively borrowed; what the caller writes
    /// through the borrow becomes the innermost scope.
    pub fn curr_scope_mut(&mut self) -> (r: &mut Scope)
        requires
            old(self)@.len() >= 1,
        ensures
            r@ == old(self)@.last(),
            final(self)@ =~= old(self)@.update(old(self)@.len() - 1, final(r)@),
    {
        let n = self.symbol_table.len();
        vstd::std_specs::vec::vec_index_mut(&mut self.symbol_table, n - 1)
    }

    /// Declares a variable in the innermost scope; refused exactly when a
    /// variable of that name already lives in the innermost scope.
    pub fn declare_var(&mut self, name: String, ty: Type) -> (ok: bool)
        requires
            old(self)@.len() >= 1,
        ensures
            ok == !scope_has_var(old(self)@.last().symbols, name@),
            ok ==> final(self)@ == push_sym(
                old(self)@,
                SymbolV::Var { name: name@, ty: ty@ },
            ),
            !ok ==> final(self)@ == old(self)@,
    {
        let n = self.symbol_table.len();
        let scope = &self.symbol_table[n - 1];
        let mut j: usize = scope.symbols.len();
        proof {
            assert(scope@.symbols.take(j as int) =~= scope@.symbols);
        }
        while j > 0
            invariant
                j <= scope.symbols.len(),
                self@.len() == n,
                scope == self.symbol_table@[n - 1],
                scope@ == self@.last(),
                scope_find_var(self@.last().symbols, name@) == scope_find_var(
                    self@.last().symbols.take(j as int),
                    name@,
                ),
            decreases j,
        {
            proof {
                assert(scope@.symbols.take(j as int).drop_last() =~= scope@.symbols.take(
                    j as int - 1,
                ));
                assert(scope@.symbols.take(j as int).last() == scope@.symbols[j as int - 1]);
            }
            match &scope.symbols[j - 1] {
                Symbol::Var { name: n2, ty: _ } => {
                    if *n2 == name {
                        return false;
                    }
                },
                _ => {},
            }
            j -= 1;
        }
        proof {
            assert(scope@.symbols.take(0) =~= Seq::<SymbolV>::empty());
        }
        let mut last = match self.symbol_table.pop() {
            Some(s) => s,
            None => {
                // unreachable: the stack is never empty
                proof {
                    assert(false);
                }
                Scope { symbols: Vec::new(), kind: ScopeKind::Regular }
            },
        };
        last.symbols.push(Symbol::Var { name, ty });
        self.symbol_table.push(last);
        proof {
            assert(final(self)@ =~~= push_sym(
                old(self)@,
                SymbolV::Var { name: name@, ty: ty@ },
            ));
        }
        true
    }

    /// Innermost-first lookup of a variable: the first match shadows all
    /// outer ones.
    pub fn find_var(&self, name: &String) -> (r: Option<&Type>)
        ensures
            match r {
                Some(t) => stack_find_var(self@, name@) == Some(t@),
                None => stack_find_var(self@, name@) is None,
            },
    {
        let mut k: usize = self.symbol_table.len();
        proof {
            assert(self@.take(k as int) =~= self@);
        }
        while k > 0
            invariant
                k <= self.symbol_table.len(),
                stack_find_var(self@, name@) == stack_find_var(self@.take(k as int), name@),
            decreases k,
        {
            proof {
                assert(self@.take(k as int).drop_last() =~= self@.take(k as int - 1));
                assert(self@.take(k as int).last() == self@[k as int - 1]);
            }
            let scope = &self.symbol_table[k - 1];
            let mut j: usize = scope.symbols.len();
            proof {
                assert(scope@.symbols.take(j as int) =~= scope@.symbols);
            }
            while j > 0
                invariant
                    j <= scope.symbols.len(),
                    k >= 1,
                    k <= self.symbol_table.len(),
                    scope == self.symbol_table@[k - 1],
                    scope@ == self@[k as int - 1],
                    stack_find_var(self@, name@) == stack_find_var(self@.take(k as int), name@),
                    scope_find_var(self@[k as int - 1].symbols, name@) == scope_find_var(
                        scope@.symbols.take(j as int),
                        name@,
                    ),
                decreases j,
            {
                proof {
                    assert(scope@.symbols.take(j as int).drop_last() =~= scope@.symbols.take(
                        j as int - 1,
                    ));
                    assert(scope@.symbols.take(j as int).last() == scope@.symbols[j as int - 1]);
                }
                match &scope.symbols[j - 1] {
                    Symbol::Var { name: n2, ty } => {
                        if *n2 == *name {
                            proof {
                                assert(self@.take(k as int).drop_last() =~= self@.take(
                                    k as int - 1,
                                ));
                                assert(self@.take(k as int).last() == self@[k as int - 1]);
                            }
                            return Some(ty);
                        }
                    },
                    _ => {},
                }
                j -= 1;
            }
            proof {
                assert(scope@.symbols.take(0) =~= Seq::<SymbolV>::empty());
            }
            k -= 1;
        }
        proof {
            assert(self@.take(0) =~= Seq::<ScopeV>::empty());
        }
        None
    }

    /// Declares a goto label in the innermost scope; refused exactly when
    /// a label of that name already lives anywhere on the chain.
    pub fn declare_label(&mut self, name: String) -> (ok: bool)
        requires
            old(self)@.len() >= 1,
        ensures
            ok == !stack_has_label(old(self)@, name@),
            ok ==> final(self)@ == push_sym(old(self)@, SymbolV::Label { name: name@ }),
            !ok ==> final(self)@ == old(self)@,
    {
        if self.contains_label(&name) {
            return false;
        }
        let mut last = match self.symbol_table.pop() {
            Some(s) => s,
            None => {
                proof {
                    assert(false);
                }
                Scope { symbols: Vec::new(), kind: ScopeKind::Regular }
            },
        };
        last.symbols.push(Symbol::Label { name });
        self.symbol_table.push(last);
        proof {
            assert(final(self)@ =~~= push_sym(old(self)@, SymbolV::Label { name: name@ }));
        }
        true
    }

    /// Whole-chain lookup of a label; order is irrelevant because the
    /// label namespace keeps names unique.
    pub fn find_label(&self, name: &String) -> (r: Option<&String>)
        ensures
            (r is Some) == stack_has_label(self@, name@),
            r matches Some(l) ==> l@ == name@,
    {
        let mut k: usize = 0;
        while k < self.symbol_table.len()
            invariant
                k <= self.symbol_table.len(),
                forall|i: int|
                    0 <= i < k ==> !scope_has_label(#[trigger] self@[i].symbols, name@),
            decreases self.symbol_table.len() - k,
        {
            let scope = &self.symbol_table[k];
            let mut j: usize = 0;
            while j < scope.symbols.len()
                invariant
                    j <= scope.symbols.len(),
                    k < self.symbol_table.len(),
                    scope == self.symbol_table@[k as int],
                    scope@ == self@[k as int],
                    forall|i: int|
                        0 <= i < j ==> !((#[trigger] scope@.symbols[i]) matches SymbolV::Label {
                            name: n,
                        } && n == name@),
                decreases scope.symbols.len() - j,
            {
                match &scope.symbols[j] {
                    Symbol::Label { name: n2 } => {
                        if *n2 == *name {
                            proof {
                                assert((scope@.symbols[j as int] matches SymbolV::Label {
                                    name: n,
                                } && n == name@));
                                assert(scope_has_label(self@[k as int].symbols, name@));
                            }
                            return Some(n2);
                        }
                    },
                    _ => {},
                }
                j += 1;
            }
            k += 1;
        }
        None
    }

    /// Whether a label of this name exists anywhere on the chain.
    pub fn contains_label(&self, name: &String) -> (r: bool)
        ensures
            r == stack_has_label(self@, name@),
    {
        self.find_label(name).is_some()
    }

    /// Declares an enumeration constant in the innermost scope; refused
    /// exactly when one of that name already lives in the innermost scope.
    pub fn declare_enum_invariant(&mut self, name: String, ty: Type) -> (ok: bool)
        requires
            old(self)@.len() >= 1,
        ensures
            ok == !scope_has_enum(old(self)@.last().symbols, name@),
            ok ==> final(self)@ == push_sym(
                old(self)@,
                SymbolV::EnumConstant { name: name@, ty: ty@ },
            ),
            !ok ==> final(self)@ == old(self)@,
    {
        let n = self.symbol_table.len();
        let scope = &self.symbol_table[n - 1];
        let mut j: usize = 0;
        proof {
            assert(scope@.symbols.skip(0) =~= scope@.symbols);
        }
        while j < scope.symbols.len()
            invariant
                j <= scope.symbols.len(),
                self@.len() == n,
                scope == self.symbol_table@[n - 1],
                scope@ == self@.last(),
                scope_find_enum(self@.last().symbols, name@) == scope_find_enum(
                    self@.last().symbols.skip(j as int),
                    name@,
                ),
            decreases scope.symbols.len() - j,
        {
            proof {
                assert(scope@.symbols.skip(j as int).drop_first() =~= scope@.symbols.skip(
                    j as int + 1,
                ));
                assert(scope@.symbols.skip(j as int).first() == scope@.symbols[j as int]);
            }
            match &scope.symbols[j] {
                Symbol::EnumConstant { name: n2, ty: _ } => {
                    if *n2 == name {
                        return false;
                    }
                },
                _ => {},
            }
            j += 1;
        }
        proof {
            assert(scope@.symbols.skip(scope@.symbols.len() as int) =~= Seq::<
                SymbolV,
            >::empty());
        }
        let mut last = match self.symbol_table.pop() {
            Some(s) => s,
            None => {
                proof {
                    assert(false);
                }
                Scope { symbols: Vec::new(), kind: ScopeKind::Regular }
            },
        };
        last.symbols.push(Symbol::EnumConstant { name, ty });
        self.symbol_table.push(last);
        proof {
            assert(final(self)@ =~~= push_sym(
                old(self)@,
                SymbolV::EnumConstant { name: name@, ty: ty@ },
            ));
        }
        true
    }

    /// Outermost-first lookup of an enumeration constant.
    pub fn find_enum_invariant(&self, name: &String) -> (r: Option<&Type>)
        ensures
            match r {
                Some(t) => stack_find_enum(self@, name@) == Some(t@),
                None => stack_find_enum(self@, name@) is None,
            },
    {
        let mut k: usize = 0;
        proof {
            assert(self@.skip(0) =~= self@);
        }
        while k < self.symbol_table.len()
            invariant
                k <= self.symbol_table.len(),
                stack_find_enum(self@, name@) == stack_find_enum(self@.skip(k as int), name@),
            decreases self.symbol_table.len() - k,
        {
            proof {
                assert(self@.skip(k as int).drop_first() =~= self@.skip(k as int + 1));
                assert(self@.skip(k as int).first() == self@[k as int]);
            }
            let scope = &self.symbol_table[k];
            let mut j: usize = 0;
            proof {
                assert(scope@.symbols.skip(0) =~= scope@.symbols);
            }
            while j < scope.symbols.len()
                invariant
                    j <= scope.symbols.len(),
                    k < self.symbol_table.len(),
                    scope == self.symbol_table@[k as int],
                    scope@ == self@[k as int],
                    stack_find_enum(self@, name@) == stack_find_enum(
                        self@.skip(k as int),
                        name@,
                    ),
                    scope_find_enum(self@[k as int].symbols, name@) == scope_find_enum(
                        scope@.symbols.skip(j as int),
                        name@,
                    ),
                decreases scope.symbols.len() - j,
            {
                proof {
                    assert(scope@.symbols.skip(j as int).drop_first() =~= scope@.symbols.skip(
                        j as int + 1,
                    ));
                    assert(scope@.symbols.skip(j as int).first() == scope@.symbols[j as int]);
                }
                match &scope.symbols[j] {
                    Symbol::EnumConstant { name: n2, ty } => {
                        if *n2 == *name {
                            proof {
                                assert(self@.skip(k as int).drop_first() =~= self@.skip(
                                    k as int + 1,
                                ));
                                assert(self@.skip(k as int).first() == self@[k as int]);
                            }
                            return Some(ty);
                        }
                    },
                    _ => {},
                }
                j += 1;
            }
            proof {
                assert(scope@.symbols.skip(scope@.symbols.len() as int) =~= Seq::<
                    SymbolV,
                >::empty());
            }
            k += 1;
        }
        proof {
            assert(self@.skip(self@.len() as int) =~= Seq::<ScopeV>::empty());
        }
        None
    }

    /// The return type of the nearest enclosing function scope.
    pub fn curr_fn_scope(&self) -> (r: Option<&Type>)
        ensures
            match r {
                Some(t) => stack_fn_ty(self@) == Some(t@),
                None => stack_fn_ty(self@) is None,
            },
    {
        let mut k: usize = self.symbol_table.len();
        proof {
            assert(self@.take(k as int) =~= self@);
        }
        while k > 0
            invariant
                k <= self.symbol_table.len(),
                stack_fn_ty(self@) == stack_fn_ty(self@.take(k as int)),
            decreases k,
        {
            proof {
                assert(self@.take(k as int).drop_last() =~= self@.take(k as int - 1));
                assert(self@.take(k as int).last() == self@[k as int - 1]);
            }
            match &self.symbol_table[k - 1].kind {
                ScopeKind::Fn(t) => {
                    return Some(t);
                },
                _ => {},
            }
            k -= 1;
        }
        proof {
            assert(self@.take(0) =~= Seq::<ScopeV>::empty());
        }
        None
    }

    /// The discriminant type of the nearest enclosing switch scope.
    pub fn curr_switch_scope(&self) -> (r: Option<&Type>)
        ensures
            match r {
                Some(t) => stack_switch_ty(self@) == Some(t@),
                None => stack_switch_ty(self@) is None,
            },
    {
        let mut k: usize = self.symbol_table.len();
        proof {
            assert(self@.take(k as int) =~= self@);
        }
        while k > 0
            invariant
                k <= self.symbol_table.len(),
                stack_switch_ty(self@) == stack_switch_ty(self@.take(k as int)),
            decreases k,
        {
            proof {
                assert(self@.take(k as int).drop_last() =~= self@.take(k as int - 1));
                assert(self@.take(k as int).last() == self@[k as int - 1]);
            }
            match &self.symbol_table[k - 1].kind {
                ScopeKind::Switch(t) => {
                    return Some(t);
                },
                _ => {},
            }
            k -= 1;
        }
        proof {
            assert(self@.take(0) =~= Seq::<ScopeV>::empty());
        }
        None
    }

    /// Whether some open scope was opened by a loop.
    pub fn in_loop(&self) -> (r: bool)
        ensures
            r == stack_in_loop(self@),
    {
        let mut k: usize = 0;
        while k < self.symbol_table.len()
            invariant
                k <= self.symbol_table.len(),
                forall|i: int| 0 <= i < k ==> !((#[trigger] self@[i].kind) is Loop),
            decreases self.symbol_table.len() - k,
        {
            match &self.symbol_table[k].kind {
                ScopeKind::Loop => {
                    proof {
                        assert(self@[k as int].kind is Loop);
                    }
                    return true;
                },
                _ => {},
            }
            k += 1;
        }
        false
    }

    /// Whether some open scope was opened by a switch.
    pub fn in_switch(&self) -> (r: bool)
        ensures
            r == stack_in_switch(self@),
    {
        let mut k: usize = 0;
        while k < self.symbol_table.len()
            invariant
                k <= self.symbol_table.len(),
                forall|i: int| 0 <= i < k ==> !((#[trigger] self@[i].kind) is Switch),
            decreases self.symbol_table.len() - k,
        {
            match &self.symbol_table[k].kind {
                ScopeKind::Switch(_) => {
                    proof {
                        assert(self@[k as int].kind is Switch);
                    }
                    return true;
                },
                _ => {},
            }
            k += 1;
        }
        false
    }
}

} // verus!
