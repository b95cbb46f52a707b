//! The scopes of a running program.
//!
//! All scopes of one program live in one [`Environment`], each under a handle.
//! A scope names the scope that encloses it by that scope's handle, which is
//! always smaller than its own, so that every chain of scopes ends. A scope
//! lives as long as something may reach it: it can be given up when it is the
//! one that was made last and no function holds on to it.

use vstd::prelude::*;
use crate::token::{LiteralType, LiteralView, Token, literal_model};

verus! {

/// Why an operation on an [`Environment`] failed.
#[derive(Debug, PartialEq, Eq, Clone, Copy, Structural)]
pub enum EnvironmentError {
    /// No scope of the chain defines the name that was assigned to.
    AssignError,
}

/// One variable of a scope. A variable that was declared without a value holds `None`.
pub struct Binding {
    pub name: String,
    pub value: Option<LiteralType>,
}

/// One scope: its variables in the order of their declaration, the handle of
/// the scope around it, and whether a function was declared in it, which may
/// outlive the block or the call that the scope was made for.
pub struct Scope {
    pub bindings: Vec<Binding>,
    pub enclosing: Option<usize>,
    pub captured: bool,
}

/// All scopes of a program. The scope with handle 0 is the global one.
pub struct Environment {
    scopes: Vec<Scope>,
}

/// The mathematical value of a scope: what each of its names is bound to,
/// the scope around it, and whether a function holds on to it.
#[verifier::ext_equal]
pub struct ScopeView {
    pub values: Map<Seq<char>, Option<LiteralView>>,
    pub enclosing: Option<usize>,
    pub captured: bool,
}

/// A scope without names inside the scope `enclosing`, or the global one.
pub open spec fn empty_scope(enclosing: Option<usize>) -> ScopeView {
    ScopeView { values: Map::empty(), enclosing, captured: false }
}

/// The scopes with the scope `scope` held on to.
pub open spec fn capture(scopes: Seq<ScopeView>, scope: int) -> Seq<ScopeView> {
    scopes.update(scope, ScopeView { captured: true, ..scopes[scope] })
}

/// Whether the scope `scope` can be given up: it is the one that was made
/// last, it is not the global one, and no function holds on to it.
pub open spec fn releasable(scopes: Seq<ScopeView>, scope: int) -> bool {
    0 < scope && scope == scopes.len() - 1 && !scopes[scope].captured
}

/// The map that a list of bindings stands for: a later binding of a name
/// replaces an earlier one.
pub open spec fn bindings_map(bindings: Seq<Binding>) -> Map<Seq<char>, Option<LiteralView>>
    decreases bindings.len(),
{
    if bindings.len() == 0 {
        Map::empty()
    } else {
        bindings_map(bindings.drop_last()).insert(
            bindings.last().name@,
            literal_model(bindings.last().value),
        )
    }
}

/// The index of the last binding of `name` among the first `upto` bindings.
pub open spec fn last_binding(bindings: Seq<Binding>, name: Seq<char>, upto: int) -> Option<int>
    decreases upto,
{
    if upto <= 0 || upto > bindings.len() {
        None
    } else if bindings[upto - 1].name@ == name {
        Some(upto - 1)
    } else {
        last_binding(bindings, name, upto - 1)
    }
}

/// The scope of the chain that starts at `scope` which defines `name`: the
/// first one, going outward.
pub open spec fn defining_scope(scopes: Seq<ScopeView>, scope: int, name: Seq<char>) -> Option<int>
    decreases scope,
{
    if scope < 0 || scope >= scopes.len() {
        None
    } else if scopes[scope].values.contains_key(name) {
        Some(scope)
    } else {
        match scopes[scope].enclosing {
            Some(outer) => if outer < scope {
                defining_scope(scopes, outer as int, name)
            } else {
                None
            },
            None => None,
        }
    }
}

/// What `name` is bound to when it is looked up from `scope`: `None` where no
/// scope of the chain defines it, `Some(None)` where it is declared without a value.
pub open spec fn lookup(scopes: Seq<ScopeView>, scope: int, name: Seq<char>) -> Option<
    Option<LiteralView>,
> {
    match defining_scope(scopes, scope, name) {
        Some(s) => Some(scopes[s].values[name]),
        None => None,
    }
}

/// The scopes after `name` was bound to `value` in `scope`.
pub open spec fn bind(scopes: Seq<ScopeView>, scope: int, name: Seq<char>, value: Option<LiteralView>)
    -> Seq<ScopeView> {
    scopes.update(
        scope,
        ScopeView { values: scopes[scope].values.insert(name, value), ..scopes[scope] },
    )
}

/// The scope that defines a name is one of the scopes, at or outside the
/// scope from which the name is looked up.
pub proof fn lemma_defining_scope(scopes: Seq<ScopeView>, scope: int, name: Seq<char>)
    ensures
        defining_scope(scopes, scope, name) matches Some(s) ==> 0 <= s <= scope && s < scopes.len()
            && scopes[s].values.contains_key(name),
    decreases scope,
{
    if 0 <= scope < scopes.len() && !scopes[scope].values.contains_key(name) {
        match scopes[scope].enclosing {
            Some(outer) => {
                if outer < scope {
                    lemma_defining_scope(scopes, outer as int, name);
                }
            },
            None => {},
        }
    }
}

/// Whether each scope but those without one is enclosed by a scope with a
/// smaller handle.
pub open spec fn chained(scopes: Seq<ScopeView>) -> bool {
    forall|i: int|
        0 <= i < scopes.len() ==> match (#[trigger] scopes[i]).enclosing {
            Some(outer) => outer < i,
            None => true,
        }
}

/// A name that is bound in a scope is found there, with what it was bound to.
pub proof fn lemma_lookup_bound(
    scopes: Seq<ScopeView>,
    scope: int,
    name: Seq<char>,
    value: Option<LiteralView>,
)
    requires
        0 <= scope < scopes.len(),
    ensures
        lookup(bind(scopes, scope, name, value), scope, name) == Some(value),
{
}

/// A binding in a scope is not seen from the scopes that were made before
/// it, which are the scopes around it among others: a name that is declared
/// in a block shadows the name outside for the block only.
pub proof fn lemma_lookup_outside(
    scopes: Seq<ScopeView>,
    scope: int,
    name: Seq<char>,
    value: Option<LiteralView>,
    from: int,
    other: Seq<char>,
)
    requires
        chained(scopes),
        0 <= from < scope < scopes.len(),
    ensures
        lookup(bind(scopes, scope, name, value), from, other) == lookup(scopes, from, other),
    decreases from,
{
    let bound = bind(scopes, scope, name, value);
    assert(bound[from] == scopes[from]);
    if !scopes[from].values.contains_key(other) {
        match scopes[from].enclosing {
            Some(outer) => {
                lemma_lookup_outside(scopes, scope, name, value, outer as int, other);
            },
            None => {},
        }
    }
}

proof fn lemma_last_binding(bindings: Seq<Binding>, name: Seq<char>, upto: int)
    requires
        0 <= upto <= bindings.len(),
    ensures
        match last_binding(bindings, name, upto) {
            Some(i) => 0 <= i < upto && bindings[i].name@ == name && bindings_map(
                bindings.take(upto),
            ).contains_key(name) && bindings_map(bindings.take(upto))[name] == literal_model(
                bindings[i].value,
            ),
            None => !bindings_map(bindings.take(upto)).contains_key(name),
        },
    decreases upto,
{
    if upto > 0 {
        lemma_last_binding(bindings, name, upto - 1);
        assert(bindings.take(upto).drop_last() =~= bindings.take(upto - 1));
    }
}

proof fn lemma_update_binding(bindings: Seq<Binding>, i: int, b: Binding, upto: int)
    requires
        0 <= i < upto <= bindings.len(),
        b.name@ == bindings[i].name@,
        last_binding(bindings, b.name@, upto) == Some(i),
    ensures
        bindings_map(bindings.update(i, b).take(upto)) == bindings_map(bindings.take(upto)).insert(
            b.name@,
            literal_model(b.value),
        ),
    decreases upto,
{
    let updated = bindings.update(i, b);
    assert(updated.take(upto).drop_last() =~= updated.take(upto - 1));
    assert(bindings.take(upto).drop_last() =~= bindings.take(upto - 1));
    if i == upto - 1 {
        assert(updated.take(upto - 1) =~= bindings.take(upto - 1));
        assert(bindings_map(updated.take(upto)) =~= bindings_map(bindings.take(upto)).insert(
            b.name@,
            literal_model(b.value),
        ));
    } else {
        lemma_update_binding(bindings, i, b, upto - 1);
        assert(bindings_map(updated.take(upto)) =~= bindings_map(bindings.take(upto)).insert(
            b.name@,
            literal_model(b.value),
        ));
    }
}

impl Scope {
    /// The mathematical value of the scope.
    pub open spec fn model(&self) -> ScopeView {
        ScopeView {
            values: bindings_map(self.bindings@),
            enclosing: self.enclosing,
            captured: self.captured,
        }
    }

    /// The index of the last binding of `name` in this scope.
    #[verifier::loop_isolation(false)]
    fn find(&self, name: &String) -> (r: Option<usize>)
        ensures
            r is Some <==> self.model().values.contains_key(name@),
            r matches Some(i) ==> i < self.bindings.len() && self.bindings[i as int].name@ == name@
                && last_binding(self.bindings@, name@, self.bindings.len() as int) == Some(
                i as int,
            ) && self.model().values[name@] == literal_model(self.bindings[i as int].value),
    {
        let mut i: usize = self.bindings.len();
        proof {
            lemma_last_binding(self.bindings@, name@, self.bindings.len() as int);
            assert(self.bindings@.take(self.bindings.len() as int) =~= self.bindings@);
        }
        while i > 0

            invariant
                i <= self.bindings.len(),
                last_binding(self.bindings@, name@, self.bindings.len() as int) == last_binding(
                    self.bindings@,
                    name@,
                    i as int,
                ),
            decreases i,
        {
            if self.bindings[i - 1].name == *name {
                return Some(i - 1);
            }
            i -= 1;
        }
        None
    }

    /// Binds `name` to `value` in this scope, whether or not it was bound before.
    fn set(&mut self, name: String, value: Option<LiteralType>)
        ensures
            final(self).model() == (ScopeView {
                values: old(self).model().values.insert(name@, literal_model(value)),
                ..old(self).model()
            }),
    {
        let found = self.find(&name);
        let ghost before = self.bindings@;
        let binding = Binding { name, value };
        match found {
            Some(i) => {
                proof {
                    lemma_update_binding(before, i as int, binding, before.len() as int);
                    assert(before.take(before.len() as int) =~= before);
                    assert(before.update(i as int, binding).take(before.len() as int)
                        =~= before.update(i as int, binding));
                }
                self.bindings.set(i, binding);
            },
            None => {
                self.bindings.push(binding);
                assert(self.bindings@.drop_last() =~= before);
            },
        }
    }
}

impl Environment {
    /// The scopes as mathematical values, by handle.
    pub closed spec fn view(&self) -> Seq<ScopeView> {
        Seq::new(self.scopes@.len(), |i: int| self.scopes@[i].model())
    }

    /// Every scope but the global one is enclosed by a scope with a smaller handle.
    pub closed spec fn wf(&self) -> bool {
        &&& self.scopes@.len() > 0
        &&& forall|i: int|
            0 <= i < self.scopes@.len() ==> match (#[trigger] self.scopes@[i]).enclosing {
                Some(outer) => outer < i,
                None => true,
            }
    }

    /// What [`Environment::wf`] says, over the view.
    pub proof fn lemma_wf(&self)
        requires
            self.wf(),
        ensures
            self@.len() > 0,
            forall|i: int|
                0 <= i < self@.len() ==> match (#[trigger] self@[i]).enclosing {
                    Some(outer) => outer < i,
                    None => true,
                },
    {
        assert forall|i: int| 0 <= i < self@.len() implies match (#[trigger] self@[i]).enclosing {
            Some(outer) => outer < i,
            None => true,
        } by {
            assert(self@[i].enclosing == self.scopes@[i].enclosing);
        }
    }

    /// An environment that holds the global scope only, with no names in it.
    pub fn new() -> (r: Self)
        ensures
            r.wf(),
            r@ == seq![empty_scope(None)],
    {
        let mut scopes: Vec<Scope> = Vec::new();
        scopes.push(Scope { bindings: Vec::new(), enclosing: None, captured: false });
        let r = Environment { scopes };
        assert(r@ =~= seq![empty_scope(None)]);
        r
    }

    /// The number of scopes; the handles are the numbers below it.
    pub fn len(&self) -> (n: usize)
        ensures
            n == self@.len(),
    {
        self.scopes.len()
    }

    /// Adds an empty scope inside the scope `enclosing` and returns its handle.
    pub fn with_enclosing(&mut self, enclosing: usize) -> (handle: usize)
        requires
            old(self).wf(),
            enclosing < old(self)@.len(),
        ensures
            final(self).wf(),
            handle == old(self)@.len(),
            final(self)@ == old(self)@.push(empty_scope(Some(enclosing))),
    {
        let handle = self.scopes.len();
        self.scopes.push(Scope { bindings: Vec::new(), enclosing: Some(enclosing), captured: false });
        assert(self@ =~= old(self)@.push(empty_scope(Some(enclosing))));
        handle
    }

    /// Marks the scope `scope` as held on to by a function.
    pub fn capture(&mut self, scope: usize)
        requires
            old(self).wf(),
            scope < old(self)@.len(),
        ensures
            final(self).wf(),
            final(self)@ == capture(old(self)@, scope as int),
    {
        let target = &mut self.scopes[scope];
        target.captured = true;
        assert(self@ =~= capture(old(self)@, scope as int));
    }

    /// Gives up the scope `scope` if it can be given up. Its handle is then
    /// that of the next scope that is made.
    pub fn release(&mut self, scope: usize) -> (r: bool)
        requires
            old(self).wf(),
            scope < old(self)@.len(),
        ensures
            final(self).wf(),
            r == releasable(old(self)@, scope as int),
            final(self)@ == if r {
                old(self)@.drop_last()
            } else {
                old(self)@
            },
    {
        if scope > 0 && scope == self.scopes.len() - 1 && !self.scopes[scope].captured {
            self.scopes.pop();
            assert(self@ =~= old(self)@.drop_last());
            true
        } else {
            false
        }
    }

    /// Binds `name` to `val` in the scope `scope` itself; a binding of the same
    /// name in that scope is replaced.
    pub fn define(&mut self, scope: usize, name: &str, val: Option<LiteralType>)
        requires
            old(self).wf(),
            scope < old(self)@.len(),
        ensures
            final(self).wf(),
            final(self)@ == bind(old(self)@, scope as int, name@, literal_model(val)),
    {
        let ghost before = self.scopes@;
        let target = &mut self.scopes[scope];
        target.set(name.to_owned(), val);
        assert(self.scopes@.len() == before.len());
        assert(self@ =~= bind(old(self)@, scope as int, name@, literal_model(val)));
    }

    /// Gives `name` the value `val` in the first scope of the chain from
    /// `scope` outward that defines it. No scope gets a new name: where none
    /// defines it, nothing changes and the call fails.
    pub fn assign(&mut self, scope: usize, name: &Token, val: LiteralType) -> (r: Result<
        (),
        EnvironmentError,
    >)
        requires
            old(self).wf(),
            scope < old(self)@.len(),
        ensures
            final(self).wf(),
            match defining_scope(old(self)@, scope as int, name.lexeme@) {
                Some(s) => r is Ok && final(self)@ == bind(
                    old(self)@,
                    s,
                    name.lexeme@,
                    Some(val@),
                ),
                None => r == Err::<(), EnvironmentError>(EnvironmentError::AssignError)
                    && final(self)@ == old(self)@,
            },
    {
        let mut current: usize = scope;
        loop
            invariant
                self.wf(),
                *self == *old(self),
                current < self@.len(),
                defining_scope(self@, scope as int, name.lexeme@) == defining_scope(
                    self@,
                    current as int,
                    name.lexeme@,
                ),
            decreases current,
        {
            let found = self.scopes[current].find(&name.lexeme);
            if found.is_some() {
                let target = &mut self.scopes[current];
                target.set(name.lexeme.clone(), Some(val));
                assert(self@ =~= bind(old(self)@, current as int, name.lexeme@, Some(val@)));
                return Ok(());
            }
            match self.scopes[current].enclosing {
                Some(outer) => {
                    current = outer;
                },
                None => {
                    return Err(EnvironmentError::AssignError);
                },
            }
        }
    }

    /// The value of `name`, looked up from `scope` outward: `None` where no
    /// scope of the chain defines it, `Some(None)` where the first that does
    /// holds it without a value.
    pub fn get(&self, scope: usize, name: &Token) -> (r: Option<Option<LiteralType>>)
        requires
            self.wf(),
            scope < self@.len(),
        ensures
            match r {
                Some(v) => lookup(self@, scope as int, name.lexeme@) == Some(literal_model(v)),
                None => lookup(self@, scope as int, name.lexeme@) is None,
            },
    {
        let mut current: usize = scope;
        loop
            invariant
                self.wf(),
                current < self@.len(),
                defining_scope(self@, scope as int, name.lexeme@) == defining_scope(
                    self@,
                    current as int,
                    name.lexeme@,
                ),
            decreases current,
        {
            let found = self.scopes[current].find(&name.lexeme);
            match found {
                Some(i) => {
                    let value = match &self.scopes[current].bindings[i].value {
                        Some(v) => Some(v.clone()),
                        None => None,
                    };
                    return Some(value);
                },
                None => {},
            }
            match self.scopes[current].enclosing {
                Some(outer) => {
                    current = outer;
                },
                None => {
                    return None;
                },
            }
        }
    }
}

} // verus!
