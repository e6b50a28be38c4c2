//! Satisfiability and simplification of expressions over numbered atoms,
//! done by the `boolean_expression` crate's binary decision diagrams.
//!
//! Everything in this module that is marked `external_body` is believed,
//! not proved: it states what the outside crate does.
use crate::formula::Formula;
use vstd::prelude::*;

verus! {

/// Makes `boolean_expression::Expr` known as a type of which nothing is
/// seen but what the functions below say of it.
#[verifier::external_type_specification]
#[verifier::external_body]
#[verifier::reject_recursive_types(T)]
pub struct ExOutsideExpr<T: Clone + core::fmt::Debug + Eq + core::hash::Hash>(
    boolean_expression::Expr<T>,
);

/// Makes `boolean_expression::BDD` known as a type of which nothing is
/// seen.
#[verifier::external_type_specification]
#[verifier::external_body]
#[verifier::reject_recursive_types(T)]
pub struct ExOutsideDiagram<T: Clone + core::fmt::Debug + Eq + core::hash::Hash>(
    boolean_expression::BDD<T>,
);

/// The tree that an expression of the outside crate holds.
pub uninterp spec fn tree_of(e: boolean_expression::Expr<usize>) -> Formula<usize>;

/// What `boolean_expression::Expr::simplify_via_bdd` makes of an
/// expression: a sum of products found by a round trip through a binary
/// decision diagram and a reduction of the diagram's cubes.
pub uninterp spec fn simplified(e: Formula<usize>) -> Formula<usize>;

/// One node of an outside expression, with its children still unopened.
enum Node {
    Terminal(usize),
    Const(bool),
    Not(boolean_expression::Expr<usize>),
    And(boolean_expression::Expr<usize>, boolean_expression::Expr<usize>),
    Or(boolean_expression::Expr<usize>, boolean_expression::Expr<usize>),
}

impl Node {
    /// The tree that the node and its children hold.
    spec fn tree(self) -> Formula<usize> {
        match self {
            Node::Terminal(atom) => Formula::Terminal(atom),
            Node::Const(value) => Formula::Const(value),
            Node::Not(e) => Formula::Not(Box::new(tree_of(e))),
            Node::And(a, b) => Formula::And(Box::new(tree_of(a)), Box::new(tree_of(b))),
            Node::Or(a, b) => Formula::Or(Box::new(tree_of(a)), Box::new(tree_of(b))),
        }
    }
}

/// Builds the variant `boolean_expression::Expr::Terminal`: a leaf that
/// holds `atom`.
#[verifier::external_body]
fn outside_terminal(atom: usize) -> (e: boolean_expression::Expr<usize>)
    ensures
        tree_of(e) == Formula::<usize>::Terminal(atom),
{
    boolean_expression::Expr::Terminal(atom)
}

/// Builds the variant `boolean_expression::Expr::Const`: a leaf that holds
/// `value`.
#[verifier::external_body]
fn outside_const(value: bool) -> (e: boolean_expression::Expr<usize>)
    ensures
        tree_of(e) == Formula::<usize>::Const(value),
{
    boolean_expression::Expr::Const(value)
}

/// Calls `boolean_expression::Expr::not`, which boxes its argument into a
/// `Not` node.
#[verifier::external_body]
fn outside_not(e: boolean_expression::Expr<usize>) -> (r: boolean_expression::Expr<usize>)
    ensures
        tree_of(r) == Formula::<usize>::Not(Box::new(tree_of(e))),
{
    boolean_expression::Expr::not(e)
}

/// Calls `boolean_expression::Expr::and`, which boxes its arguments into
/// an `And` node, in their order.
#[verifier::external_body]
fn outside_and(a: boolean_expression::Expr<usize>, b: boolean_expression::Expr<usize>) -> (r:
    boolean_expression::Expr<usize>)
    ensures
        tree_of(r) == Formula::<usize>::And(Box::new(tree_of(a)), Box::new(tree_of(b))),
{
    boolean_expression::Expr::and(a, b)
}

/// Calls `boolean_expression::Expr::or`, which boxes its arguments into an
/// `Or` node, in their order.
#[verifier::external_body]
fn outside_or(a: boolean_expression::Expr<usize>, b: boolean_expression::Expr<usize>) -> (r:
    boolean_expression::Expr<usize>)
    ensures
        tree_of(r) == Formula::<usize>::Or(Box::new(tree_of(a)), Box::new(tree_of(b))),
{
    boolean_expression::Expr::or(a, b)
}

/// Takes the root of a `boolean_expression::Expr` apart: the variant, and
/// what it holds, moved out of its boxes.
#[verifier::external_body]
fn outside_open(e: boolean_expression::Expr<usize>) -> (node: Node)
    ensures
        node.tree() == tree_of(e),
{
    match e {
        boolean_expression::Expr::Terminal(atom) => Node::Terminal(atom),
        boolean_expression::Expr::Const(value) => Node::Const(value),
        boolean_expression::Expr::Not(x) => Node::Not(*x),
        boolean_expression::Expr::And(a, b) => Node::And(*a, *b),
        boolean_expression::Expr::Or(a, b) => Node::Or(*a, *b),
    }
}

/// Calls `boolean_expression::BDD::new`, which makes a diagram that holds
/// nothing.
#[verifier::external_body]
fn outside_diagram() -> (bdd: boolean_expression::BDD<usize>) {
    boolean_expression::BDD::new()
}

/// Calls `boolean_expression::BDD::from_expr`, which enters the expression
/// into the diagram and returns its node. The diagram is reduced and
/// ordered, so the function that is false under every assignment, and only
/// it, has the diagram's zero node, `usize::MAX`.
#[verifier::external_body]
fn outside_from_expr(
    bdd: &mut boolean_expression::BDD<usize>,
    e: &boolean_expression::Expr<usize>,
) -> (node: usize)
    ensures
        (node == usize::MAX) == !tree_of(*e).satisfiable(),
{
    bdd.from_expr(e)
}

/// Calls `boolean_expression::BDD::sat`, which says whether `node` is
/// another node than the zero node.
#[verifier::external_body]
fn outside_sat(bdd: &boolean_expression::BDD<usize>, node: usize) -> (sat: bool)
    ensures
        sat == (node != usize::MAX),
{
    bdd.sat(node)
}

/// Calls `boolean_expression::Expr::simplify_via_bdd`. Its result is named
/// by [`simplified`]. Of it the contract claims what the crate documents: it
/// is a minimized sum of products, so a constant stands alone or not at all;
/// it has the value of `e` under every assignment; it mentions only atoms of
/// `e`; and a function that is constant comes back as that constant, the
/// diagram being canonical. A single atom comes back as it is. The result
/// depends only on the function and on the order in which the atoms first
/// occur, which is the order of the diagram's variables: another expression
/// with the same value under every assignment and the same atoms in the same
/// order simplifies to the same result.
#[verifier::external_body]
fn outside_simplify(e: boolean_expression::Expr<usize>) -> (r: boolean_expression::Expr<usize>)
    ensures
        tree_of(r) == simplified(tree_of(e)),
        tree_of(r) is Const || tree_of(r).const_free(),
        tree_of(r).equivalent(tree_of(e)),
        forall|atom: usize| tree_of(r).mentions(atom) ==> tree_of(e).mentions(atom),
        tree_of(e).valid() ==> tree_of(r) == Formula::<usize>::Const(true),
        !tree_of(e).satisfiable() ==> tree_of(r) == Formula::<usize>::Const(false),
        tree_of(e) is Terminal ==> tree_of(r) == tree_of(e),
        forall|other: Formula<usize>|
            other.equivalent(tree_of(e)) && other.atoms() == tree_of(e).atoms()
                ==> #[trigger] simplified(other) == tree_of(r),
{
    e.simplify_via_bdd()
}

/// Builds the outside crate's expression for `tree`.
fn to_outside(tree: &Formula<usize>) -> (e: boolean_expression::Expr<usize>)
    ensures
        tree_of(e) == *tree,
    decreases tree,
{
    match tree {
        Formula::Terminal(atom) => outside_terminal(*atom),
        Formula::Const(value) => outside_const(*value),
        Formula::Not(x) => outside_not(to_outside(&**x)),
        Formula::And(a, b) => {
            let left = to_outside(&**a);
            let right = to_outside(&**b);
            outside_and(left, right)
        },
        Formula::Or(a, b) => {
            let left = to_outside(&**a);
            let right = to_outside(&**b);
            outside_or(left, right)
        },
    }
}

/// Reads an expression of the outside crate back into a tree.
fn from_outside(e: boolean_expression::Expr<usize>) -> (tree: Formula<usize>)
    ensures
        tree == tree_of(e),
    decreases tree_of(e).size(),
{
    let ghost whole = tree_of(e);
    match outside_open(e) {
        Node::Terminal(atom) => Formula::Terminal(atom),
        Node::Const(value) => Formula::Const(value),
        Node::Not(x) => {
            assert(whole == Formula::<usize>::Not(Box::new(tree_of(x))));
            Formula::Not(Box::new(from_outside(x)))
        },
        Node::And(a, b) => {
            assert(whole == Formula::<usize>::And(Box::new(tree_of(a)), Box::new(tree_of(b))));
            let left = from_outside(a);
            let right = from_outside(b);
            Formula::And(Box::new(left), Box::new(right))
        },
        Node::Or(a, b) => {
            assert(whole == Formula::<usize>::Or(Box::new(tree_of(a)), Box::new(tree_of(b))));
            let left = from_outside(a);
            let right = from_outside(b);
            Formula::Or(Box::new(left), Box::new(right))
        },
    }
}

/// Whether some assignment of its atoms makes `tree` true.
pub fn tree_satisfiable(tree: &Formula<usize>) -> (sat: bool)
    ensures
        sat == tree.satisfiable(),
{
    let e = to_outside(tree);
    let mut bdd = outside_diagram();
    let node = outside_from_expr(&mut bdd, &e);
    outside_sat(&bdd, node)
}

/// The simplified form of `tree`: see [`simplified`].
pub fn simplify_tree(tree: &Formula<usize>) -> (r: Formula<usize>)
    ensures
        r == simplified(*tree),
        r is Const || r.const_free(),
        r.equivalent(*tree),
        forall|atom: usize| r.mentions(atom) ==> tree.mentions(atom),
        tree.valid() ==> r == Formula::<usize>::Const(true),
        !tree.satisfiable() ==> r == Formula::<usize>::Const(false),
        *tree is Terminal ==> r == *tree,
        forall|other: Formula<usize>|
            other.equivalent(*tree) && other.atoms() == tree.atoms() ==> #[trigger] simplified(
                other,
            ) == r,
{
    from_outside(outside_simplify(to_outside(tree)))
}

} // verus!
