//! Predicates: boolean expressions over conditions, their satisfiability
//! and their compilation.
use crate::bdd::{simplified, simplify_tree, tree_satisfiable};
use crate::codegen::{ends_with_epilogue, generate, program_of};
use crate::condition::{Condition, ConditionView};
use crate::filter::Filter;
use crate::formula::{
    first_index, in_range, labelled, lemma_atoms_into, lemma_first_index,
    lemma_first_index_found, lemma_labelled_eval,
    lemma_labelled_mentions, lemma_labelled_shape, lemma_numbered_atoms, lemma_numbered_eval,
    lemma_numbered_mentions, numbers, Formula,
};
use crate::laws::{jump_free, lands_within, no_jumps, theorem_compiled};
use crate::machine::{keeps, length_of};
use crate::semantics::{absolute, covered, holds_of, lemma_proper_well_formed, proper};
use crate::BsError;
use vstd::prelude::*;

verus! {

/// The views of the conditions in `table`.
pub open spec fn views(table: Seq<Condition>) -> Seq<ConditionView> {
    Seq::new(table.len(), |i: int| table[i]@)
}

impl<T> Formula<T> {
    /// What compiling makes of the expression before it generates code:
    /// the atoms are numbered in the order in which they first occur, the
    /// numbered expression is simplified, and the numbers are replaced by
    /// the atoms again.
    pub open spec fn simplified(self) -> Formula<T> {
        labelled(simplified(self.numbered(self.atoms())), self.atoms())
    }

    /// What is relied on of the simplified form `s` of the expression: a
    /// constant stands alone in it or not at all, it has the expression's
    /// value under every assignment of the atoms, it mentions no other atoms,
    /// it is a bare constant where the expression's value does not depend on
    /// the atoms, and it is the expression itself where that is a single
    /// atom.
    pub open spec fn simplifies_to(self, s: Formula<T>) -> bool {
        &&& s is Const || s.const_free()
        &&& s.equivalent(self)
        &&& forall|t: T| s.mentions(t) ==> self.mentions(t)
        &&& self.valid() ==> s == Formula::<T>::Const(true)
        &&& !self.satisfiable() ==> s == Formula::<T>::Const(false)
        &&& self is Terminal ==> s == self
    }

    /// What is relied on of the simplifier beyond the result for the
    /// expression itself: every expression over numbers that has the value of
    /// the numbered expression under every assignment, and the same atoms in
    /// the same order, simplifies to the same result.
    pub open spec fn simplified_canonically(self) -> bool {
        let numbered = self.numbered(self.atoms());
        forall|other: Formula<usize>|
            other.equivalent(numbered) && other.atoms() == numbered.atoms()
                ==> #[trigger] simplified(other) == simplified(numbered)
    }

    /// Whether the simplifier did for the expression what it is relied on
    /// for. [`crate::Predicate::compile`] and [`crate::Predicate::simplify`]
    /// establish it for the predicate they are called on.
    pub open spec fn simplified_faithfully(self) -> bool {
        &&& self.atoms().len() <= usize::MAX
        &&& self.simplifies_to(self.simplified())
        &&& self.simplified_canonically()
    }
}

/// A numbered expression is satisfiable exactly where the expression is.
pub proof fn lemma_numbered_satisfiable<T>(e: Formula<T>, table: Seq<T>)
    requires
        table.len() <= usize::MAX,
        forall|t: T| e.mentions(t) ==> table.contains(t),
    ensures
        e.numbered(table).satisfiable() == e.satisfiable(),
        e.numbered(table).valid() == e.valid(),
        in_range(e.numbered(table), table.len()),
{
    let n = e.numbered(table);
    assert forall|t: T| e.mentions(t) implies 0 <= first_index(table, t, 0) < table.len()
        && table[first_index(table, t, 0)] == t by {
        let at = choose|at: int| 0 <= at < table.len() && table[at] == t;
        lemma_first_index(table, t, 0, at);
    }
    assert forall|env: spec_fn(T) -> bool| true implies exists|by_number: spec_fn(usize) -> bool|
        n.eval(by_number) == #[trigger] e.eval(env) by {
        let by_number = |i: usize| env(table[i as int]);
        lemma_numbered_eval(e, table, env, by_number);
    }
    assert forall|by_number: spec_fn(usize) -> bool| true implies exists|env: spec_fn(T) -> bool|
        e.eval(env) == #[trigger] n.eval(by_number) by {
        let env = |t: T| by_number(first_index(table, t, 0) as usize);
        lemma_numbered_eval(e, table, env, by_number);
    }
    if e.satisfiable() {
        let env = choose|env: spec_fn(T) -> bool| e.eval(env);
        assert(e.eval(env));
        let by_number = choose|by_number: spec_fn(usize) -> bool| n.eval(by_number) == e.eval(env);
        assert(n.eval(by_number));
    }
    if n.satisfiable() {
        let by_number = choose|by_number: spec_fn(usize) -> bool| n.eval(by_number);
        assert(n.eval(by_number));
        let env = choose|env: spec_fn(T) -> bool| e.eval(env) == n.eval(by_number);
        assert(e.eval(env));
    }
    if e.valid() {
        assert forall|by_number: spec_fn(usize) -> bool| n.eval(by_number) by {
            let env = choose|env: spec_fn(T) -> bool| e.eval(env) == n.eval(by_number);
            assert(e.eval(env));
        }
    }
    if n.valid() {
        assert forall|env: spec_fn(T) -> bool| e.eval(env) by {
            let by_number = choose|by_number: spec_fn(usize) -> bool|
                n.eval(by_number) == e.eval(env);
            assert(n.eval(by_number));
        }
    }
    assert forall|i: usize| n.mentions(i) implies i < table.len() by {
        lemma_numbered_mentions(e, table, i);
    }
}

/// Where the simplifier did for the numbered expression what it is relied
/// on for, the labelled result is a simplified form of the expression
/// itself.
pub proof fn lemma_simplifies_to<T>(e: Formula<T>, s: Formula<usize>)
    requires
        e.atoms().len() <= usize::MAX,
        e.numbered(e.atoms()).simplifies_to(s),
    ensures
        e.simplifies_to(labelled(s, e.atoms())),
{
    let table = e.atoms();
    let n = e.numbered(table);
    let r = labelled(s, table);
    lemma_atoms_into(e, Seq::empty());
    lemma_numbered_satisfiable(e, table);
    lemma_labelled_shape(s, table);
    assert forall|t: T| e.mentions(t) implies 0 <= first_index(table, t, 0) < table.len()
        && table[first_index(table, t, 0)] == t by {
        assert(table.contains(t));
        let at = choose|at: int| 0 <= at < table.len() && table[at] == t;
        lemma_first_index(table, t, 0, at);
    }
    assert forall|env: spec_fn(T) -> bool| r.eval(env) == e.eval(env) by {
        let by_number = |i: usize| env(table[i as int]);
        lemma_labelled_eval(s, table, env, by_number);
        assert(s.eval(by_number) == n.eval(by_number));
        lemma_numbered_eval(e, table, env, by_number);
    }
    assert forall|t: T| r.mentions(t) implies e.mentions(t) by {
        lemma_labelled_mentions(s, table, t);
        let i = choose|i: usize| #[trigger] s.mentions(i) && table[i as int] == t;
        assert(n.mentions(i));
        lemma_numbered_mentions(e, table, i);
    }
    if e is Terminal {
        let t = e->Terminal_0;
        assert(e.mentions(t));
        assert(s == n);
        assert(r == e);
    }
}

/// Two expressions with the same value under every assignment and the same
/// atoms in the same order have the same simplified form.
pub proof fn lemma_same_simplified<T>(p: Formula<T>, q: Formula<T>)
    requires
        p.atoms().len() <= usize::MAX,
        p.simplified_canonically(),
        p.atoms() == q.atoms(),
        p.equivalent(q),
    ensures
        p.simplified() == q.simplified(),
{
    let table = p.atoms();
    let first = p.numbered(table);
    let second = q.numbered(table);
    lemma_atoms_into(p, Seq::empty());
    lemma_atoms_into(q, Seq::empty());
    assert forall|by_number: spec_fn(usize) -> bool| second.eval(by_number) == first.eval(
        by_number,
    ) by {
        let env = |t: T| by_number(first_index(table, t, 0) as usize);
        lemma_numbered_eval(p, table, env, by_number);
        lemma_numbered_eval(q, table, env, by_number);
        assert(p.eval(env) == q.eval(env));
    }
    lemma_numbered_atoms(p, table, Seq::empty());
    lemma_numbered_atoms(q, table, Seq::empty());
    assert(numbers(Seq::<T>::empty(), table) =~= Seq::<usize>::empty());
    assert(second.atoms() == first.atoms());
    assert(simplified(second) == simplified(first));
}

/// Adds to `table` the conditions of `e` that it lacks, in the order in
/// which they first occur.
fn gather(e: &Formula<Condition>, table: &mut Vec<Condition>)
    ensures
        views(final(table)@) == e@.atoms_into(views(old(table)@)),
    decreases e,
{
    match e {
        Formula::Terminal(condition) => {
            let at = find(table, condition);
            proof {
                lemma_first_index_found(views(table@), condition@, 0);
            }
            if at >= table.len() {
                let ghost before = views(table@);
                table.push(condition.clone());
                assert(views(table@) =~= before.push(condition@));
            }
        },
        Formula::Const(_) => {},
        Formula::Not(x) => {
            gather(&**x, table);
        },
        Formula::And(a, b) => {
            gather(&**a, table);
            gather(&**b, table);
        },
        Formula::Or(a, b) => {
            gather(&**a, table);
            gather(&**b, table);
        },
    }
}

/// The first index at which `table` holds a condition like `condition`, or
/// the length of `table`.
fn find(table: &Vec<Condition>, condition: &Condition) -> (at: usize)
    ensures
        at == first_index(views(table@), condition@, 0),
        at <= table@.len(),
{
    let mut i: usize = 0;
    while i < table.len()
        invariant
            i <= table@.len(),
            first_index(views(table@), condition@, 0) == first_index(
                views(table@),
                condition@,
                i as int,
            ),
        decreases table@.len() - i,
    {
        if table[i].same(condition) {
            return i;
        }
        i = i + 1;
    }
    i
}

/// `e` with each condition replaced by its first index in `table`.
fn number(e: &Formula<Condition>, table: &Vec<Condition>) -> (n: Formula<usize>)
    ensures
        n == e@.numbered(views(table@)),
    decreases e,
{
    match e {
        Formula::Terminal(condition) => Formula::Terminal(find(table, condition)),
        Formula::Const(value) => Formula::Const(*value),
        Formula::Not(x) => Formula::Not(Box::new(number(&**x, table))),
        Formula::And(a, b) => {
            let left = number(&**a, table);
            let right = number(&**b, table);
            Formula::And(Box::new(left), Box::new(right))
        },
        Formula::Or(a, b) => {
            let left = number(&**a, table);
            let right = number(&**b, table);
            Formula::Or(Box::new(left), Box::new(right))
        },
    }
}

/// `e` with each number replaced by the condition at that index of `table`.
fn label(e: &Formula<usize>, table: &Vec<Condition>) -> (r: Formula<Condition>)
    requires
        in_range(*e, table@.len()),
    ensures
        r@ == labelled(*e, views(table@)),
    decreases e,
{
    match e {
        Formula::Terminal(i) => {
            assert(e.mentions(*i));
            Formula::Terminal(table[*i].clone())
        },
        Formula::Const(value) => Formula::Const(*value),
        Formula::Not(x) => {
            assert forall|i: usize| x.mentions(i) implies i < table@.len() by {
                assert(e.mentions(i));
            }
            Formula::Not(Box::new(label(&**x, table)))
        },
        Formula::And(a, b) => {
            assert forall|i: usize| a.mentions(i) || b.mentions(i) implies i < table@.len() by {
                assert(e.mentions(i));
            }
            let left = label(&**a, table);
            let right = label(&**b, table);
            Formula::And(Box::new(left), Box::new(right))
        },
        Formula::Or(a, b) => {
            assert forall|i: usize| a.mentions(i) || b.mentions(i) implies i < table@.len() by {
                assert(e.mentions(i));
            }
            let left = label(&**a, table);
            let right = label(&**b, table);
            Formula::Or(Box::new(left), Box::new(right))
        },
    }
}

/// A copy of `e`.
fn duplicate(e: &Formula<Condition>) -> (copy: Formula<Condition>)
    ensures
        copy@ == e@,
    decreases e,
{
    match e {
        Formula::Terminal(condition) => Formula::Terminal(condition.clone()),
        Formula::Const(value) => Formula::Const(*value),
        Formula::Not(x) => Formula::Not(Box::new(duplicate(&**x))),
        Formula::And(a, b) => {
            let left = duplicate(&**a);
            let right = duplicate(&**b);
            Formula::And(Box::new(left), Box::new(right))
        },
        Formula::Or(a, b) => {
            let left = duplicate(&**a);
            let right = duplicate(&**b);
            Formula::Or(Box::new(left), Box::new(right))
        },
    }
}

/// A boolean expression over [`Condition`]s. Predicates are combined with
/// `&`, `|` and `!`.
#[derive(Debug, PartialEq, Eq, Hash)]
pub struct Predicate {
    pub expr: Formula<Condition>,
}

impl Clone for Predicate {
    fn clone(&self) -> (copy: Self)
        ensures
            copy@ == self@,
    {
        Predicate { expr: duplicate(&self.expr) }
    }
}

impl View for Predicate {
    type V = Formula<ConditionView>;

    open spec fn view(&self) -> Formula<ConditionView> {
        self.expr@
    }
}

impl Predicate {
    /// The predicate that holds `expr`.
    pub fn from_inner(expr: Formula<Condition>) -> (predicate: Self)
        ensures
            predicate.expr == expr,
    {
        Self { expr }
    }

    /// The expression that the predicate holds.
    pub fn into_inner(self) -> (expr: Formula<Condition>)
        ensures
            expr == self.expr,
    {
        self.expr
    }

    /// always false
    pub fn const_false() -> (predicate: Self)
        ensures
            predicate@ == Formula::<ConditionView>::Const(false),
    {
        Self::from_inner(Formula::Const(false))
    }

    /// always true
    pub fn const_true() -> (predicate: Self)
        ensures
            predicate@ == Formula::<ConditionView>::Const(true),
    {
        Self::from_inner(Formula::Const(true))
    }

    /// The predicate that holds where both `self` and `rhs` hold. `self` is
    /// tested first.
    pub fn and(self, rhs: Predicate) -> (both: Predicate)
        ensures
            both@ == Formula::<ConditionView>::And(Box::new(self@), Box::new(rhs@)),
            both.expr == Formula::<Condition>::And(Box::new(self.expr), Box::new(rhs.expr)),
    {
        Predicate { expr: Formula::And(Box::new(self.expr), Box::new(rhs.expr)) }
    }

    /// The predicate that holds where `self` or `rhs` holds. `self` is
    /// tested first.
    pub fn or(self, rhs: Predicate) -> (either: Predicate)
        ensures
            either@ == Formula::<ConditionView>::Or(Box::new(self@), Box::new(rhs@)),
            either.expr == Formula::<Condition>::Or(Box::new(self.expr), Box::new(rhs.expr)),
    {
        Predicate { expr: Formula::Or(Box::new(self.expr), Box::new(rhs.expr)) }
    }

    /// The predicate that holds where `self` does not.
    pub fn negate(self) -> (complement: Predicate)
        ensures
            complement@ == Formula::<ConditionView>::Not(Box::new(self@)),
            complement.expr == Formula::<Condition>::Not(Box::new(self.expr)),
    {
        Predicate { expr: Formula::Not(Box::new(self.expr)) }
    }

    /// The predicate that is `condition` alone.
    pub fn terminal(condition: Condition) -> (predicate: Predicate)
        ensures
            predicate@ == Formula::<ConditionView>::Terminal(condition@),
    {
        Predicate { expr: Formula::Terminal(condition) }
    }

    /// Checks whether some assignment of truth values to the predicate's
    /// conditions makes it true. Conditions are told apart by what they
    /// hold, and are taken to be independent of each other: `false` means
    /// that no frame passes, `true` is a hint.
    pub fn satisfiable(&self) -> (sat: bool)
        ensures
            sat == self@.satisfiable(),
    {
        let mut table: Vec<Condition> = Vec::new();
        gather(&self.expr, &mut table);
        let numbered = number(&self.expr, &table);
        let count = table.len();
        proof {
            assert(views(table@).len() == count);
            assert(views(Seq::<Condition>::empty()) =~= Seq::<ConditionView>::empty());
            lemma_atoms_into(self@, Seq::empty());
            lemma_numbered_satisfiable(self@, views(table@));
        }
        tree_satisfiable(&numbered)
    }

    /// The simplified form of the predicate that code is generated for.
    pub fn simplify(&self) -> (r: Predicate)
        ensures
            r@ == self@.simplified(),
            self@.simplifies_to(r@),
            self@.simplified_faithfully(),
    {
        let mut table: Vec<Condition> = Vec::new();
        gather(&self.expr, &mut table);
        let numbered = number(&self.expr, &table);
        let reduced = simplify_tree(&numbered);
        let count = table.len();
        proof {
            assert(views(table@).len() == count);
            assert(views(Seq::<Condition>::empty()) =~= Seq::<ConditionView>::empty());
            lemma_atoms_into(self@, Seq::empty());
            lemma_numbered_satisfiable(self@, views(table@));
            lemma_simplifies_to(self@, reduced);
        }
        Predicate::from_inner(label(&reduced, &table))
    }

    /// Generate a `Socket`-appropriate `Filter` implementing `self`'s logic:
    /// the program of the predicate's simplified form.
    pub fn compile(self) -> (r: Result<Filter, BsError>)
        ensures
            self@.simplified_faithfully(),
            match r {
                Ok(filter) => program_of(self@.simplified()) == Some(filter@),
                Err(err) => err == BsError::FilterProgramOverflow && program_of(
                    self@.simplified(),
                ) is None,
            },
            r is Ok ==> r->Ok_0@.len() <= 65535 && ends_with_epilogue(r->Ok_0@),
            r is Ok && jump_free(self@) ==> lands_within(r->Ok_0@, 0),
            r is Ok && proper(self@) ==> forall|frame: Seq<u8>|
                {
                    let kept = #[trigger] keeps(r->Ok_0@, frame);
                    &&& kept == 0 || kept == length_of(frame)
                    &&& kept != 0 ==> holds_of(self@, frame)
                    &&& covered(self@, frame) && holds_of(self@, frame) ==> kept == length_of(
                        frame,
                    )
                },
    {
        let simple = self.simplify();
        let r = generate(&simple.expr);
        proof {
            if r is Ok && jump_free(self@) {
                let s = self@.simplified();
                assert forall|c: ConditionView| #[trigger] s.mentions(c) implies no_jumps(
                    c.computation,
                ) by {
                    assert(self@.mentions(c));
                }
            }
            if r is Ok && proper(self@) {
                let s = self@.simplified();
                assert forall|c: ConditionView| #[trigger] s.mentions(c) implies absolute(
                    c.computation,
                ) by {
                    assert(self@.mentions(c));
                }
                lemma_proper_well_formed(s);
                assert forall|frame: Seq<u8>|
                    {
                        let kept = #[trigger] keeps(r->Ok_0@, frame);
                        &&& kept == 0 || kept == length_of(frame)
                        &&& kept != 0 ==> holds_of(self@, frame)
                        &&& covered(self@, frame) && holds_of(self@, frame) ==> kept
                            == length_of(frame)
                    } by {
                    theorem_compiled(self@, frame);
                }
            }
        }
        r
    }
}

impl std::ops::BitAnd for Predicate {
    type Output = Predicate;

    fn bitand(self, rhs: Predicate) -> (both: Predicate) {
        self.and(rhs)
    }
}

impl vstd::std_specs::ops::BitAndSpecImpl for Predicate {
    open spec fn obeys_bitand_spec() -> bool {
        true
    }

    open spec fn bitand_req(self, rhs: Predicate) -> bool {
        true
    }

    open spec fn bitand_spec(self, rhs: Predicate) -> Predicate {
        Predicate { expr: Formula::And(Box::new(self.expr), Box::new(rhs.expr)) }
    }
}

impl std::ops::BitOr for Predicate {
    type Output = Predicate;

    fn bitor(self, rhs: Predicate) -> (either: Predicate) {
        self.or(rhs)
    }
}

impl vstd::std_specs::ops::BitOrSpecImpl for Predicate {
    open spec fn obeys_bitor_spec() -> bool {
        true
    }

    open spec fn bitor_req(self, rhs: Predicate) -> bool {
        true
    }

    open spec fn bitor_spec(self, rhs: Predicate) -> Predicate {
        Predicate { expr: Formula::Or(Box::new(self.expr), Box::new(rhs.expr)) }
    }
}

impl std::ops::Not for Predicate {
    type Output = Predicate;

    fn not(self) -> (complement: Predicate) {
        self.negate()
    }
}

impl vstd::std_specs::ops::NotSpecImpl for Predicate {
    open spec fn obeys_not_spec() -> bool {
        true
    }

    open spec fn not_req(self) -> bool {
        true
    }

    open spec fn not_spec(self) -> Predicate {
        Predicate { expr: Formula::Not(Box::new(self.expr)) }
    }
}

} // verus!
