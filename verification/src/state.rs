use std::rc::Rc;

use vstd::prelude::*;

use crate::generics::NamedTable;

verus! {

/// One scope of names, linked to the scope that encloses it.
pub struct SymbolTable {
    /// The enclosing scope; `None` for the outermost one.
    pub outer: Option<Rc<SymbolTable>>,
}

impl SymbolTable {
    /// An outermost, empty scope.
    pub fn new() -> (r: SymbolTable)
        ensures
            r.outer is None,
    {
        SymbolTable { outer: None }
    }
}

/// Another handle on the same shared value (`Rc::clone`, which points the new
/// `Rc` at the same allocation): the claim is that both hold the same value.
#[verifier::external_body]
fn share<T>(r: &Rc<T>) -> (res: Rc<T>)
    ensures
        res == *r,
{
    Rc::clone(r)
}

/// The state of the function being compiled: its scopes, and the generic
/// items it knows by name, before (`G`) and after (`C`) their compilation.
pub struct FunctionState<G, C> {
    /// The innermost scope.
    pub table: Rc<SymbolTable>,
    /// Generic items by name.
    pub generics: NamedTable<G>,
    /// Compiled generic items by name.
    pub compiled_generics: NamedTable<C>,
}

/// `after` is `before` with a new, empty scope opened inside the innermost one.
pub open spec fn entered_scope<G, C>(before: FunctionState<G, C>, after: FunctionState<G, C>) -> bool {
    &&& *after.table == (SymbolTable { outer: Some(before.table) })
    &&& after.generics == before.generics
    &&& after.compiled_generics == before.compiled_generics
}

/// `after` is `before` with its innermost scope closed and `ret` that scope, or,
/// at the outermost scope, `before` unchanged and `ret` nothing.
pub open spec fn left_scope<G, C>(
    before: FunctionState<G, C>,
    after: FunctionState<G, C>,
    ret: Option<Rc<SymbolTable>>,
) -> bool {
    match before.table.outer {
        Some(outer) => {
            &&& after.table == outer
            &&& ret == Some(before.table)
            &&& after.generics == before.generics
            &&& after.compiled_generics == before.compiled_generics
        },
        None => after == before && ret is None,
    }
}

impl<G, C> FunctionState<G, C> {
    /// A function state at its outermost scope, knowing no generic items.
    pub fn new() -> (r: FunctionState<G, C>)
        ensures
            r.table.outer is None,
            r.generics@ == Map::<Seq<char>, G>::empty(),
            r.compiled_generics@ == Map::<Seq<char>, C>::empty(),
    {
        FunctionState {
            table: Rc::new(SymbolTable::new()),
            generics: NamedTable::new(),
            compiled_generics: NamedTable::new(),
        }
    }

    /// Opens a new, empty scope inside the current one.
    pub fn enter_scope(&mut self)
        ensures
            entered_scope(*old(self), *final(self)),
    {
        let outer = share(&self.table);
        self.table = Rc::new(SymbolTable { outer: Some(outer) });
    }

    /// Closes the current scope and returns it; at the outermost scope, does
    /// nothing and returns `None`.
    pub fn leave_scope(&mut self) -> (r: Option<Rc<SymbolTable>>)
        ensures
            left_scope(*old(self), *final(self), r),
    {
        let outer = match &self.table.outer {
            Some(o) => share(o),
            None => {
                return None;
            },
        };
        let before_leave_table = share(&self.table);
        self.table = outer;
        Some(before_leave_table)
    }
}

/// Leaving a scope right after entering one restores the state and hands back
/// the scope that was entered.
pub proof fn lemma_leave_undoes_enter<G, C>(
    s0: FunctionState<G, C>,
    s1: FunctionState<G, C>,
    s2: FunctionState<G, C>,
    ret: Option<Rc<SymbolTable>>,
)
    requires
        entered_scope(s0, s1),
        left_scope(s1, s2, ret),
    ensures
        s2 == s0,
        ret == Some(s1.table),
{
}

/// How many scopes are open: the table and those that enclose it.
pub open spec fn scope_depth(t: SymbolTable) -> nat
    decreases t,
{
    match t.outer {
        Some(o) => 1 + scope_depth(*o),
        None => 1,
    }
}

/// The outermost scope of a chain.
pub open spec fn outermost_scope(t: SymbolTable) -> SymbolTable
    decreases t,
{
    match t.outer {
        Some(o) => outermost_scope(*o),
        None => t,
    }
}

/// Entering a scope adds one to the depth and keeps the outermost scope.
pub proof fn lemma_enter_depth<G, C>(s0: FunctionState<G, C>, s1: FunctionState<G, C>)
    requires
        entered_scope(s0, s1),
    ensures
        scope_depth(*s1.table) == scope_depth(*s0.table) + 1,
        outermost_scope(*s1.table) == outermost_scope(*s0.table),
{
}

/// Leaving a scope takes one from the depth and returns the scope, unless only
/// the outermost scope is open: then it returns nothing and changes nothing,
/// and the table is the outermost scope. The outermost scope is kept.
pub proof fn lemma_leave_depth<G, C>(
    s0: FunctionState<G, C>,
    s1: FunctionState<G, C>,
    ret: Option<Rc<SymbolTable>>,
)
    requires
        left_scope(s0, s1, ret),
    ensures
        scope_depth(*s0.table) >= 1,
        scope_depth(*s0.table) > 1 ==> ret is Some && scope_depth(*s1.table) == scope_depth(
            *s0.table,
        ) - 1,
        scope_depth(*s0.table) == 1 ==> ret is None && s1 == s0 && *s0.table == outermost_scope(
            *s0.table,
        ),
        outermost_scope(*s1.table) == outermost_scope(*s0.table),
{
    reveal_with_fuel(scope_depth, 2);
}

/// Step `i` of a run of `enter_scope` calls: `states[i + 1]` follows `states[i]`.
pub open spec fn enter_step<G, C>(states: Seq<FunctionState<G, C>>, i: int) -> bool {
    entered_scope(states[i], states[i + 1])
}

/// Step `i` of a run of `leave_scope` calls: `states[i + 1]` and `rets[i]`
/// follow `states[i]`.
pub open spec fn leave_step<G, C>(
    states: Seq<FunctionState<G, C>>,
    rets: Seq<Option<Rc<SymbolTable>>>,
    i: int,
) -> bool {
    left_scope(states[i], states[i + 1], rets[i])
}

/// A run of `enter_scope` calls raises the depth by one each and keeps the
/// outermost scope.
pub proof fn lemma_enter_chain<G, C>(states: Seq<FunctionState<G, C>>, i: int)
    requires
        0 <= i < states.len(),
        forall|j: int| 0 <= j < states.len() - 1 ==> #[trigger] enter_step(states, j),
    ensures
        scope_depth(*states[i].table) == scope_depth(*states[0].table) + i,
        outermost_scope(*states[i].table) == outermost_scope(*states[0].table),
    decreases i,
{
    if i > 0 {
        lemma_enter_chain(states, i - 1);
        assert(enter_step(states, i - 1));
        lemma_enter_depth(states[i - 1], states[i]);
    }
}

/// A run of `leave_scope` calls from depth `d`: before call `i`, the depth is
/// `d - i` while `i < d`; call `i` returns a scope exactly when `i < d - 1`;
/// from call `d - 1` on, the table is the outermost scope the run started from.
pub proof fn lemma_leave_chain<G, C>(
    states: Seq<FunctionState<G, C>>,
    rets: Seq<Option<Rc<SymbolTable>>>,
    i: int,
)
    requires
        states.len() == rets.len() + 1,
        0 <= i < states.len(),
        forall|j: int| 0 <= j < rets.len() ==> #[trigger] leave_step(states, rets, j),
    ensures
        outermost_scope(*states[i].table) == outermost_scope(*states[0].table),
        i < scope_depth(*states[0].table) ==> scope_depth(*states[i].table) == scope_depth(
            *states[0].table,
        ) - i,
        i >= scope_depth(*states[0].table) - 1 ==> *states[i].table == outermost_scope(
            *states[0].table,
        ) && scope_depth(*states[i].table) == 1,
        i < rets.len() ==> (rets[i] is Some <==> i < scope_depth(*states[0].table) - 1),
    decreases i,
{
    if i > 0 {
        lemma_leave_chain(states, rets, i - 1);
        assert(leave_step(states, rets, i - 1));
        lemma_leave_depth(states[i - 1], states[i], rets[i - 1]);
    }
    lemma_leave_base(states[i]);
    if i < rets.len() {
        assert(leave_step(states, rets, i));
        lemma_leave_depth(states[i], states[i + 1], rets[i]);
    }
}

/// At depth one the table is its own outermost scope.
proof fn lemma_leave_base<G, C>(s: FunctionState<G, C>)
    ensures
        scope_depth(*s.table) >= 1,
        scope_depth(*s.table) == 1 ==> *s.table == outermost_scope(*s.table),
{
    reveal_with_fuel(scope_depth, 2);
}

/// After `k` calls of `enter_scope` from depth `d`, the next `d - 1 + k` calls of
/// `leave_scope` each return a scope and lower the depth by one, and every call
/// after them returns nothing and leaves the table at the outermost scope of
/// the chain the enters started from.
pub proof fn lemma_scope_depth_law<G, C>(
    entered: Seq<FunctionState<G, C>>,
    states: Seq<FunctionState<G, C>>,
    rets: Seq<Option<Rc<SymbolTable>>>,
    i: int,
)
    requires
        entered.len() >= 1,
        forall|j: int| 0 <= j < entered.len() - 1 ==> #[trigger] enter_step(entered, j),
        states.len() == rets.len() + 1,
        states[0] == entered.last(),
        forall|j: int| 0 <= j < rets.len() ==> #[trigger] leave_step(states, rets, j),
        0 <= i < rets.len(),
    ensures
        rets[i] is Some <==> i < scope_depth(*entered[0].table) - 1 + (entered.len() - 1),
        rets[i] is Some ==> scope_depth(*states[i + 1].table) == scope_depth(*states[i].table) - 1,
        rets[i] is None ==> states[i + 1] == states[i] && *states[i].table == outermost_scope(
            *entered[0].table,
        ),
{
    let k = entered.len() - 1;
    lemma_enter_chain(entered, k);
    lemma_leave_chain(states, rets, i);
    lemma_leave_chain(states, rets, i + 1);
    assert(leave_step(states, rets, i));
    lemma_leave_depth(states[i], states[i + 1], rets[i]);
}

/// What a read of a generic item gives back is what the last write under that
/// name wrote; a write under one name leaves every other name as it was.
pub proof fn lemma_generic_read_after_write<G: Clone, C, T: PushGetGeneric<G, C>>(
    before: T,
    after: T,
    name: Seq<char>,
    info: G,
    other: Seq<char>,
)
    requires
        after.generic_map() == before.generic_map().insert(name, info),
    ensures
        after.generic_map().contains_key(name),
        after.generic_map()[name] == info,
        other != name ==> after.generic_map().contains_key(other) == before.generic_map().contains_key(
            other,
        ),
        other != name && before.generic_map().contains_key(other) ==> after.generic_map()[other]
            == before.generic_map()[other],
{
}

/// For an item type whose `clone` gives an equal value, a read of a generic
/// item right after a write under the same name gives back what was written,
/// and a read of a name with no entry gives nothing.
pub proof fn lemma_get_generic_after_push<G: Clone, C, T: PushGetGeneric<G, C>>(
    before: T,
    after: T,
    name: Seq<char>,
    info: G,
    got: Option<G>,
    other: Seq<char>,
    got_other: Option<G>,
)
    requires
        forall|a: G, b: G| #[trigger] cloned(a, b) ==> a == b,
        after.generic_map() == before.generic_map().insert(name, info),
        got matches Some(g) ==> after.generic_map().contains_key(name) && cloned(
            after.generic_map()[name],
            g,
        ),
        got is None ==> !after.generic_map().contains_key(name),
        !after.generic_map().contains_key(other),
        got_other matches Some(g) ==> after.generic_map().contains_key(other) && cloned(
            after.generic_map()[other],
            g,
        ),
        got_other is None ==> !after.generic_map().contains_key(other),
    ensures
        got == Some(info),
        got_other is None,
{
    if let Some(g) = got {
        assert(cloned(after.generic_map()[name], g));
    }
}

/// The same for compiled generic items.
pub proof fn lemma_compiled_generic_read_after_write<G: Clone, C, T: PushGetGeneric<G, C>>(
    before: T,
    after: T,
    name: Seq<char>,
    info: C,
    other: Seq<char>,
)
    requires
        after.compiled_generic_map() == before.compiled_generic_map().insert(name, info),
    ensures
        after.compiled_generic_map().contains_key(name),
        after.compiled_generic_map()[name] == info,
        other != name ==> after.compiled_generic_map().contains_key(other)
            == before.compiled_generic_map().contains_key(other),
        other != name && before.compiled_generic_map().contains_key(other)
            ==> after.compiled_generic_map()[other] == before.compiled_generic_map()[other],
{
}

/// Registration and lookup of generic items by name.
pub trait PushGetGeneric<G: Clone, C> {
    /// The generic items, by name.
    spec fn generic_map(&self) -> Map<Seq<char>, G>;

    /// The compiled generic items, by name.
    spec fn compiled_generic_map(&self) -> Map<Seq<char>, C>;

    /// Registers a compiled generic item under `name`, replacing any earlier one.
    fn push_compiled_generic(&mut self, name: String, info: C)
        ensures
            final(self).compiled_generic_map() == old(self).compiled_generic_map().insert(name@, info),
            final(self).generic_map() == old(self).generic_map(),
    ;

    /// The compiled generic item under `name`, if any.
    fn get_compiled_generic(&mut self, name: &str) -> (r: Option<&C>)
        ensures
            r matches Some(c) ==> old(self).compiled_generic_map().contains_key(name@) && *c
                == old(self).compiled_generic_map()[name@],
            r is None ==> !old(self).compiled_generic_map().contains_key(name@),
            final(self).compiled_generic_map() == old(self).compiled_generic_map(),
            final(self).generic_map() == old(self).generic_map(),
    ;

    /// Registers a generic item under `name`, replacing any earlier one.
    fn push_generic(&mut self, name: String, info: G)
        ensures
            final(self).generic_map() == old(self).generic_map().insert(name@, info),
            final(self).compiled_generic_map() == old(self).compiled_generic_map(),
    ;

    /// The generic item under `name`, to change in place, if any.
    fn get_mut_generic(&mut self, name: &str) -> (r: Option<&mut G>)
        ensures
            r matches Some(g) ==> {
                &&& old(self).generic_map().contains_key(name@)
                &&& *g == old(self).generic_map()[name@]
                &&& final(self).generic_map() == old(self).generic_map().insert(name@, *final(g))
                &&& final(self).compiled_generic_map() == old(self).compiled_generic_map()
            },
            r is None ==> {
                &&& !old(self).generic_map().contains_key(name@)
                &&& final(self).generic_map() == old(self).generic_map()
                &&& final(self).compiled_generic_map() == old(self).compiled_generic_map()
            },
    ;

    /// A copy of the generic item under `name`, if any.
    fn get_generic(&mut self, name: &str) -> (r: Option<G>)
        ensures
            r matches Some(g) ==> old(self).generic_map().contains_key(name@) && cloned(
                old(self).generic_map()[name@],
                g,
            ),
            r is None ==> !old(self).generic_map().contains_key(name@),
            final(self).generic_map() == old(self).generic_map(),
            final(self).compiled_generic_map() == old(self).compiled_generic_map(),
    ;
}

impl<G: Clone, C> PushGetGeneric<G, C> for FunctionState<G, C> {
    open spec fn generic_map(&self) -> Map<Seq<char>, G> {
        self.generics@
    }

    open spec fn compiled_generic_map(&self) -> Map<Seq<char>, C> {
        self.compiled_generics@
    }

    fn push_compiled_generic(&mut self, name: String, info: C)
        ensures
            final(self).table == old(self).table,
    {
        self.compiled_generics.insert(name, info);
    }

    fn get_compiled_generic(&mut self, name: &str) -> (r: Option<&C>)
        ensures
            *final(self) == *old(self),
    {
        self.compiled_generics.get(name)
    }

    fn push_generic(&mut self, name: String, info: G)
        ensures
            final(self).table == old(self).table,
    {
        self.generics.insert(name, info);
    }

    fn get_mut_generic(&mut self, name: &str) -> (r: Option<&mut G>)
        ensures
            final(self).table == old(self).table,
    {
        self.generics.get_mut(name)
    }

    fn get_generic(&mut self, name: &str) -> (r: Option<G>)
        ensures
            *final(self) == *old(self),
    {
        match self.generics.get(name) {
            Some(g) => Some(g.clone()),
            None => None,
        }
    }
}

} // verus!
