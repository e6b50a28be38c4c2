//! Boolean expression trees over arbitrary atoms.
use vstd::prelude::*;

verus! {

/// A boolean expression over atoms of type `T`. Each node owns its
/// children.
#[derive(Debug, PartialEq, Eq, Hash)]
pub enum Formula<T> {
    /// A free variable.
    Terminal(T),
    /// `true` or `false`.
    Const(bool),
    /// The complement of the argument.
    Not(Box<Formula<T>>),
    /// The conjunction of the two arguments.
    And(Box<Formula<T>>, Box<Formula<T>>),
    /// The disjunction of the two arguments.
    Or(Box<Formula<T>>, Box<Formula<T>>),
}

/// The expression over the views of `e`'s atoms.
pub open spec fn view_of<T: View>(e: Formula<T>) -> Formula<T::V>
    decreases e,
{
    match e {
        Formula::Terminal(t) => Formula::Terminal(t@),
        Formula::Const(value) => Formula::Const(value),
        Formula::Not(e) => Formula::Not(Box::new(view_of(*e))),
        Formula::And(a, b) => Formula::And(Box::new(view_of(*a)), Box::new(view_of(*b))),
        Formula::Or(a, b) => Formula::Or(Box::new(view_of(*a)), Box::new(view_of(*b))),
    }
}

impl<T: View> View for Formula<T> {
    type V = Formula<T::V>;

    open spec fn view(&self) -> Formula<T::V> {
        view_of(*self)
    }
}

impl<T> Formula<T> {
    /// The value of the expression where `env` gives the value of each
    /// atom.
    pub open spec fn eval(self, env: spec_fn(T) -> bool) -> bool
        decreases self,
    {
        match self {
            Formula::Terminal(t) => env(t),
            Formula::Const(value) => value,
            Formula::Not(e) => !e.eval(env),
            Formula::And(a, b) => a.eval(env) && b.eval(env),
            Formula::Or(a, b) => a.eval(env) || b.eval(env),
        }
    }

    /// The number of nodes.
    pub open spec fn size(self) -> nat
        decreases self,
    {
        match self {
            Formula::Terminal(_) => 1,
            Formula::Const(_) => 1,
            Formula::Not(e) => 1 + e.size(),
            Formula::And(a, b) => 1 + a.size() + b.size(),
            Formula::Or(a, b) => 1 + a.size() + b.size(),
        }
    }

    /// Whether the expression holds no constant.
    pub open spec fn const_free(self) -> bool
        decreases self,
    {
        match self {
            Formula::Terminal(_) => true,
            Formula::Const(_) => false,
            Formula::Not(e) => e.const_free(),
            Formula::And(a, b) => a.const_free() && b.const_free(),
            Formula::Or(a, b) => a.const_free() && b.const_free(),
        }
    }

    /// Whether `t` is one of the expression's atoms.
    pub open spec fn mentions(self, t: T) -> bool
        decreases self,
    {
        match self {
            Formula::Terminal(u) => u == t,
            Formula::Const(_) => false,
            Formula::Not(e) => e.mentions(t),
            Formula::And(a, b) => a.mentions(t) || b.mentions(t),
            Formula::Or(a, b) => a.mentions(t) || b.mentions(t),
        }
    }

    /// Whether some assignment of the atoms makes the expression true.
    pub open spec fn satisfiable(self) -> bool {
        exists|env: spec_fn(T) -> bool| self.eval(env)
    }

    /// Whether every assignment of the atoms makes the expression true.
    pub open spec fn valid(self) -> bool {
        forall|env: spec_fn(T) -> bool| self.eval(env)
    }

    /// Whether the two expressions have the same value under every
    /// assignment of the atoms.
    pub open spec fn equivalent(self, other: Formula<T>) -> bool {
        forall|env: spec_fn(T) -> bool| self.eval(env) == other.eval(env)
    }

    /// `table`, followed by those atoms of the expression that it lacks, in
    /// the order in which they first occur from left to right.
    pub open spec fn atoms_into(self, table: Seq<T>) -> Seq<T>
        decreases self,
    {
        match self {
            Formula::Terminal(t) => if table.contains(t) {
                table
            } else {
                table.push(t)
            },
            Formula::Const(_) => table,
            Formula::Not(e) => e.atoms_into(table),
            Formula::And(a, b) => b.atoms_into(a.atoms_into(table)),
            Formula::Or(a, b) => b.atoms_into(a.atoms_into(table)),
        }
    }

    /// The atoms of the expression, each once, in the order in which they
    /// first occur from left to right.
    pub open spec fn atoms(self) -> Seq<T> {
        self.atoms_into(Seq::empty())
    }

    /// The expression with each atom replaced by its first index in
    /// `table`.
    pub open spec fn numbered(self, table: Seq<T>) -> Formula<usize>
        decreases self,
    {
        match self {
            Formula::Terminal(t) => Formula::Terminal(first_index(table, t, 0) as usize),
            Formula::Const(value) => Formula::Const(value),
            Formula::Not(e) => Formula::Not(Box::new(e.numbered(table))),
            Formula::And(a, b) => Formula::And(
                Box::new(a.numbered(table)),
                Box::new(b.numbered(table)),
            ),
            Formula::Or(a, b) => Formula::Or(
                Box::new(a.numbered(table)),
                Box::new(b.numbered(table)),
            ),
        }
    }
}

/// The first index from `start` on at which `table` holds `t`, or the
/// length of `table` where it holds none.
pub open spec fn first_index<T>(table: Seq<T>, t: T, start: int) -> int
    decreases table.len() - start,
{
    if start < 0 || start >= table.len() {
        table.len() as int
    } else if table[start] == t {
        start
    } else {
        first_index(table, t, start + 1)
    }
}

/// The expression over numbered atoms with each number replaced by the
/// entry of `table` at that index.
pub open spec fn labelled<T>(e: Formula<usize>, table: Seq<T>) -> Formula<T>
    decreases e,
{
    match e {
        Formula::Terminal(i) => Formula::Terminal(table[i as int]),
        Formula::Const(value) => Formula::Const(value),
        Formula::Not(x) => Formula::Not(Box::new(labelled(*x, table))),
        Formula::And(a, b) => Formula::And(
            Box::new(labelled(*a, table)),
            Box::new(labelled(*b, table)),
        ),
        Formula::Or(a, b) => Formula::Or(
            Box::new(labelled(*a, table)),
            Box::new(labelled(*b, table)),
        ),
    }
}

/// Whether every atom of `e` is an index into a table of `len` entries.
pub open spec fn in_range(e: Formula<usize>, len: nat) -> bool {
    forall|i: usize| e.mentions(i) ==> i < len
}

/// Where `table` holds `t` at or after `start`, the first such index is
/// inside the table and holds `t`.
pub proof fn lemma_first_index<T>(table: Seq<T>, t: T, start: int, at: int)
    requires
        0 <= start <= at < table.len(),
        table[at] == t,
    ensures
        start <= first_index(table, t, start) <= at,
        table[first_index(table, t, start)] == t,
    decreases table.len() - start,
{
    if table[start] != t {
        lemma_first_index(table, t, start + 1, at);
    }
}

/// The first index from `start` on is not before `start` nor after the end
/// of the table; inside the table it holds `t`, and at the end it says that
/// the table does not hold `t` from `start` on.
pub proof fn lemma_first_index_found<T>(table: Seq<T>, t: T, start: int)
    requires
        0 <= start <= table.len(),
    ensures
        start <= first_index(table, t, start) <= table.len(),
        first_index(table, t, start) < table.len() ==> table[first_index(table, t, start)] == t,
        first_index(table, t, start) == table.len() ==> forall|j: int|
            start <= j < table.len() ==> table[j] != t,
    decreases table.len() - start,
{
    if start < table.len() && table[start] != t {
        lemma_first_index_found(table, t, start + 1);
    }
}

/// Taking in the atoms of an expression keeps what the table held and adds
/// every atom of the expression.
pub proof fn lemma_atoms_into<T>(e: Formula<T>, table: Seq<T>)
    ensures
        forall|t: T| table.contains(t) ==> #[trigger] e.atoms_into(table).contains(t),
        forall|t: T| e.mentions(t) ==> #[trigger] e.atoms_into(table).contains(t),
    decreases e,
{
    let all = e.atoms_into(table);
    assert forall|t: T| table.contains(t) || e.mentions(t) implies #[trigger] all.contains(t) by {
        match e {
            Formula::Terminal(u) => {
                if table.contains(t) {
                    let i = choose|i: int| 0 <= i < table.len() && table[i] == t;
                    assert(all[i] == t);
                } else {
                    assert(t == u);
                    assert(all[table.len() as int] == u);
                }
            },
            Formula::Const(_) => {
                assert(all == table);
            },
            Formula::Not(x) => {
                lemma_atoms_into(*x, table);
                assert(all == x.atoms_into(table));
            },
            Formula::And(a, b) => {
                let mid = a.atoms_into(table);
                lemma_atoms_into(*a, table);
                lemma_atoms_into(*b, mid);
                if table.contains(t) || a.mentions(t) {
                    assert(mid.contains(t));
                }
                assert(all == b.atoms_into(mid));
            },
            Formula::Or(a, b) => {
                let mid = a.atoms_into(table);
                lemma_atoms_into(*a, table);
                lemma_atoms_into(*b, mid);
                if table.contains(t) || a.mentions(t) {
                    assert(mid.contains(t));
                }
                assert(all == b.atoms_into(mid));
            },
        }
    }
}

/// Taking in the atoms of an expression adds nothing but atoms of the
/// expression.
pub proof fn lemma_atoms_into_only<T>(e: Formula<T>, table: Seq<T>)
    ensures
        forall|t: T| #[trigger]
            e.atoms_into(table).contains(t) ==> table.contains(t) || e.mentions(t),
    decreases e,
{
    let all = e.atoms_into(table);
    assert forall|t: T| #[trigger] all.contains(t) implies table.contains(t) || e.mentions(t) by {
        match e {
            Formula::Terminal(u) => {
                let i = choose|i: int| 0 <= i < all.len() && all[i] == t;
                if !table.contains(u) {
                    if i < table.len() {
                        assert(table[i] == t);
                    }
                }
            },
            Formula::Const(_) => {
                assert(all == table);
            },
            Formula::Not(x) => {
                lemma_atoms_into_only(*x, table);
                assert(all == x.atoms_into(table));
            },
            Formula::And(a, b) => {
                let mid = a.atoms_into(table);
                lemma_atoms_into_only(*a, table);
                lemma_atoms_into_only(*b, mid);
                assert(all == b.atoms_into(mid));
            },
            Formula::Or(a, b) => {
                let mid = a.atoms_into(table);
                lemma_atoms_into_only(*a, table);
                lemma_atoms_into_only(*b, mid);
                assert(all == b.atoms_into(mid));
            },
        }
    }
}

/// A table that holds every atom of an expression stays as it is when the
/// atoms of the expression are taken in.
pub proof fn lemma_atoms_into_known<T>(e: Formula<T>, table: Seq<T>)
    requires
        forall|t: T| #[trigger] e.mentions(t) ==> table.contains(t),
    ensures
        e.atoms_into(table) == table,
    decreases e,
{
    match e {
        Formula::Terminal(u) => {
            assert(e.mentions(u));
        },
        Formula::Const(_) => {},
        Formula::Not(x) => {
            assert forall|t: T| #[trigger] x.mentions(t) implies table.contains(t) by {
                assert(e.mentions(t));
            }
            lemma_atoms_into_known(*x, table);
        },
        Formula::And(a, b) => {
            assert forall|t: T| #[trigger] a.mentions(t) implies table.contains(t) by {
                assert(e.mentions(t));
            }
            assert forall|t: T| #[trigger] b.mentions(t) implies table.contains(t) by {
                assert(e.mentions(t));
            }
            lemma_atoms_into_known(*a, table);
            lemma_atoms_into_known(*b, table);
        },
        Formula::Or(a, b) => {
            assert forall|t: T| #[trigger] a.mentions(t) implies table.contains(t) by {
                assert(e.mentions(t));
            }
            assert forall|t: T| #[trigger] b.mentions(t) implies table.contains(t) by {
                assert(e.mentions(t));
            }
            lemma_atoms_into_known(*a, table);
            lemma_atoms_into_known(*b, table);
        },
    }
}

/// The first indices in `table` of the entries of `list`.
pub open spec fn numbers<T>(list: Seq<T>, table: Seq<T>) -> Seq<usize> {
    Seq::new(list.len(), |i: int| first_index(table, list[i], 0) as usize)
}

/// Numbering and taking in the atoms can be done in either order: the
/// atoms of the numbered expression are the numbers of the atoms of the
/// expression.
pub proof fn lemma_numbered_atoms<T>(e: Formula<T>, table: Seq<T>, list: Seq<T>)
    requires
        table.len() <= usize::MAX,
        forall|t: T| #[trigger] e.mentions(t) ==> table.contains(t),
        forall|t: T| #[trigger] list.contains(t) ==> table.contains(t),
    ensures
        e.numbered(table).atoms_into(numbers(list, table)) == numbers(e.atoms_into(list), table),
    decreases e,
{
    match e {
        Formula::Terminal(u) => {
            assert(e.mentions(u));
            let known = numbers(list, table);
            let k = first_index(table, u, 0) as usize;
            let at = choose|at: int| 0 <= at < table.len() && table[at] == u;
            lemma_first_index(table, u, 0, at);
            if list.contains(u) {
                let i = choose|i: int| 0 <= i < list.len() && list[i] == u;
                assert(known[i] == k);
            } else {
                if known.contains(k) {
                    let i = choose|i: int| 0 <= i < known.len() && known[i] == k;
                    let other = list[i];
                    assert(list.contains(other));
                    let there = choose|there: int| 0 <= there < table.len() && table[there]
                        == other;
                    lemma_first_index(table, other, 0, there);
                    assert(first_index(table, other, 0) == first_index(table, u, 0));
                    assert(other == u);
                }
                assert(numbers(list.push(u), table) =~= known.push(k));
            }
        },
        Formula::Const(_) => {},
        Formula::Not(x) => {
            assert forall|t: T| #[trigger] x.mentions(t) implies table.contains(t) by {
                assert(e.mentions(t));
            }
            lemma_numbered_atoms(*x, table, list);
        },
        Formula::And(a, b) => {
            assert forall|t: T| #[trigger] a.mentions(t) implies table.contains(t) by {
                assert(e.mentions(t));
            }
            assert forall|t: T| #[trigger] b.mentions(t) implies table.contains(t) by {
                assert(e.mentions(t));
            }
            let mid = a.atoms_into(list);
            lemma_atoms_into_only(*a, list);
            lemma_numbered_atoms(*a, table, list);
            lemma_numbered_atoms(*b, table, mid);
        },
        Formula::Or(a, b) => {
            assert forall|t: T| #[trigger] a.mentions(t) implies table.contains(t) by {
                assert(e.mentions(t));
            }
            assert forall|t: T| #[trigger] b.mentions(t) implies table.contains(t) by {
                assert(e.mentions(t));
            }
            let mid = a.atoms_into(list);
            lemma_atoms_into_only(*a, list);
            lemma_numbered_atoms(*a, table, list);
            lemma_numbered_atoms(*b, table, mid);
        },
    }
}

/// Numbering keeps the value: where `by_number` gives each atom's number
/// the value that `env` gives the atom, the numbered expression has under
/// `by_number` the value of the expression under `env`.
pub proof fn lemma_numbered_eval<T>(
    e: Formula<T>,
    table: Seq<T>,
    env: spec_fn(T) -> bool,
    by_number: spec_fn(usize) -> bool,
)
    requires
        forall|t: T| #[trigger]
            e.mentions(t) ==> by_number(first_index(table, t, 0) as usize) == env(t),
    ensures
        e.numbered(table).eval(by_number) == e.eval(env),
    decreases e,
{
    match e {
        Formula::Terminal(u) => {
            assert(e.mentions(u));
        },
        Formula::Const(_) => {},
        Formula::Not(x) => {
            assert forall|t: T| #[trigger] x.mentions(t) implies by_number(
                first_index(table, t, 0) as usize,
            ) == env(t) by {
                assert(e.mentions(t));
            }
            lemma_numbered_eval(*x, table, env, by_number);
        },
        Formula::And(a, b) => {
            assert forall|t: T| #[trigger] a.mentions(t) implies by_number(
                first_index(table, t, 0) as usize,
            ) == env(t) by {
                assert(e.mentions(t));
            }
            assert forall|t: T| #[trigger] b.mentions(t) implies by_number(
                first_index(table, t, 0) as usize,
            ) == env(t) by {
                assert(e.mentions(t));
            }
            lemma_numbered_eval(*a, table, env, by_number);
            lemma_numbered_eval(*b, table, env, by_number);
        },
        Formula::Or(a, b) => {
            assert forall|t: T| #[trigger] a.mentions(t) implies by_number(
                first_index(table, t, 0) as usize,
            ) == env(t) by {
                assert(e.mentions(t));
            }
            assert forall|t: T| #[trigger] b.mentions(t) implies by_number(
                first_index(table, t, 0) as usize,
            ) == env(t) by {
                assert(e.mentions(t));
            }
            lemma_numbered_eval(*a, table, env, by_number);
            lemma_numbered_eval(*b, table, env, by_number);
        },
    }
}

/// Every number in a numbered expression is the first index of one of the
/// expression's atoms.
pub proof fn lemma_numbered_mentions<T>(e: Formula<T>, table: Seq<T>, i: usize)
    requires
        e.numbered(table).mentions(i),
    ensures
        exists|t: T| #[trigger] e.mentions(t) && first_index(table, t, 0) as usize == i,
    decreases e,
{
    match e {
        Formula::Terminal(u) => {
            assert(e.mentions(u));
        },
        Formula::Const(_) => {},
        Formula::Not(x) => {
            lemma_numbered_mentions(*x, table, i);
            let t = choose|t: T| #[trigger] x.mentions(t) && first_index(table, t, 0) as usize == i;
            assert(e.mentions(t));
        },
        Formula::And(a, b) => {
            if a.numbered(table).mentions(i) {
                lemma_numbered_mentions(*a, table, i);
                let t = choose|t: T| #[trigger]
                    a.mentions(t) && first_index(table, t, 0) as usize == i;
                assert(e.mentions(t));
            } else {
                lemma_numbered_mentions(*b, table, i);
                let t = choose|t: T| #[trigger]
                    b.mentions(t) && first_index(table, t, 0) as usize == i;
                assert(e.mentions(t));
            }
        },
        Formula::Or(a, b) => {
            if a.numbered(table).mentions(i) {
                lemma_numbered_mentions(*a, table, i);
                let t = choose|t: T| #[trigger]
                    a.mentions(t) && first_index(table, t, 0) as usize == i;
                assert(e.mentions(t));
            } else {
                lemma_numbered_mentions(*b, table, i);
                let t = choose|t: T| #[trigger]
                    b.mentions(t) && first_index(table, t, 0) as usize == i;
                assert(e.mentions(t));
            }
        },
    }
}

/// Labelling keeps the value: where `env` gives each entry of the table
/// the value that `by_number` gives its index, the labelled expression has
/// under `env` the value of the numbered one under `by_number`.
pub proof fn lemma_labelled_eval<T>(
    e: Formula<usize>,
    table: Seq<T>,
    env: spec_fn(T) -> bool,
    by_number: spec_fn(usize) -> bool,
)
    requires
        forall|i: usize| #[trigger] e.mentions(i) ==> by_number(i) == env(table[i as int]),
    ensures
        labelled(e, table).eval(env) == e.eval(by_number),
    decreases e,
{
    match e {
        Formula::Terminal(i) => {
            assert(e.mentions(i));
        },
        Formula::Const(_) => {},
        Formula::Not(x) => {
            assert forall|i: usize| #[trigger] x.mentions(i) implies by_number(i) == env(
                table[i as int],
            ) by {
                assert(e.mentions(i));
            }
            lemma_labelled_eval(*x, table, env, by_number);
        },
        Formula::And(a, b) => {
            assert forall|i: usize| #[trigger] a.mentions(i) implies by_number(i) == env(
                table[i as int],
            ) by {
                assert(e.mentions(i));
            }
            assert forall|i: usize| #[trigger] b.mentions(i) implies by_number(i) == env(
                table[i as int],
            ) by {
                assert(e.mentions(i));
            }
            lemma_labelled_eval(*a, table, env, by_number);
            lemma_labelled_eval(*b, table, env, by_number);
        },
        Formula::Or(a, b) => {
            assert forall|i: usize| #[trigger] a.mentions(i) implies by_number(i) == env(
                table[i as int],
            ) by {
                assert(e.mentions(i));
            }
            assert forall|i: usize| #[trigger] b.mentions(i) implies by_number(i) == env(
                table[i as int],
            ) by {
                assert(e.mentions(i));
            }
            lemma_labelled_eval(*a, table, env, by_number);
            lemma_labelled_eval(*b, table, env, by_number);
        },
    }
}

/// Labelling keeps the shape: a constant stays a constant, and an
/// expression without constants stays one.
pub proof fn lemma_labelled_shape<T>(e: Formula<usize>, table: Seq<T>)
    ensures
        labelled(e, table).const_free() == e.const_free(),
        (e is Const) == (labelled(e, table) is Const),
        e is Const ==> labelled(e, table) == Formula::<T>::Const(e->Const_0),
    decreases e,
{
    match e {
        Formula::Terminal(_) => {},
        Formula::Const(_) => {},
        Formula::Not(x) => {
            lemma_labelled_shape(*x, table);
        },
        Formula::And(a, b) => {
            lemma_labelled_shape(*a, table);
            lemma_labelled_shape(*b, table);
        },
        Formula::Or(a, b) => {
            lemma_labelled_shape(*a, table);
            lemma_labelled_shape(*b, table);
        },
    }
}

/// Every atom of a labelled expression is the table's entry at one of the
/// numbers.
pub proof fn lemma_labelled_mentions<T>(e: Formula<usize>, table: Seq<T>, t: T)
    requires
        labelled(e, table).mentions(t),
    ensures
        exists|i: usize| #[trigger] e.mentions(i) && table[i as int] == t,
    decreases e,
{
    match e {
        Formula::Terminal(i) => {
            assert(e.mentions(i));
        },
        Formula::Const(_) => {},
        Formula::Not(x) => {
            lemma_labelled_mentions(*x, table, t);
            let i = choose|i: usize| #[trigger] x.mentions(i) && table[i as int] == t;
            assert(e.mentions(i));
        },
        Formula::And(a, b) => {
            if labelled(*a, table).mentions(t) {
                lemma_labelled_mentions(*a, table, t);
                let i = choose|i: usize| #[trigger] a.mentions(i) && table[i as int] == t;
                assert(e.mentions(i));
            } else {
                lemma_labelled_mentions(*b, table, t);
                let i = choose|i: usize| #[trigger] b.mentions(i) && table[i as int] == t;
                assert(e.mentions(i));
            }
        },
        Formula::Or(a, b) => {
            if labelled(*a, table).mentions(t) {
                lemma_labelled_mentions(*a, table, t);
                let i = choose|i: usize| #[trigger] a.mentions(i) && table[i as int] == t;
                assert(e.mentions(i));
            } else {
                lemma_labelled_mentions(*b, table, t);
                let i = choose|i: usize| #[trigger] b.mentions(i) && table[i as int] == t;
                assert(e.mentions(i));
            }
        },
    }
}

} // verus!
