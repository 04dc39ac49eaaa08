//! What every kind of gate offers: its name, the residuals of its
//! constraints in three forms, its generators, and its sizes.

use crate::field::extension::Extension;
use crate::field::types::PrimeField64;
use crate::gates::util::StridedConstraintConsumer;
use crate::iop::ext_target::ExtensionTarget;
use crate::plonk::circuit_builder::CircuitBuilder;
use crate::plonk::vars::{EvaluationTargets, EvaluationVars, EvaluationVarsBase};
use vstd::prelude::*;

verus! {

/// The character of a decimal digit.
pub open spec fn digit_char(d: nat) -> char {
    if d == 0 {
        '0'
    } else if d == 1 {
        '1'
    } else if d == 2 {
        '2'
    } else if d == 3 {
        '3'
    } else if d == 4 {
        '4'
    } else if d == 5 {
        '5'
    } else if d == 6 {
        '6'
    } else if d == 7 {
        '7'
    } else if d == 8 {
        '8'
    } else {
        '9'
    }
}

/// The decimal digits of a number, the highest first and without leading
/// zeros.
pub open spec fn decimal_digits(n: nat) -> Seq<char>
    decreases n,
{
    if n < 10 {
        seq![digit_char(n)]
    } else {
        decimal_digits(n / 10).push(digit_char(n % 10))
    }
}

/// The number that a decimal digit stands for.
pub open spec fn digit_value(c: char) -> nat {
    if c == '1' {
        1
    } else if c == '2' {
        2
    } else if c == '3' {
        3
    } else if c == '4' {
        4
    } else if c == '5' {
        5
    } else if c == '6' {
        6
    } else if c == '7' {
        7
    } else if c == '8' {
        8
    } else if c == '9' {
        9
    } else {
        0
    }
}

/// The number that decimal digits stand for, the highest first.
pub open spec fn decimal_value(digits: Seq<char>) -> nat
    decreases digits.len(),
{
    if digits.len() == 0 {
        0
    } else {
        decimal_value(digits.drop_last()) * 10 + digit_value(digits.last())
    }
}

/// Whether a character is a decimal digit.
pub open spec fn is_digit(c: char) -> bool {
    c == digit_char(digit_value(c))
}

/// The decimal digits of a number are digits, at least one, and stand for
/// the number: different numbers have different digits.
pub proof fn lemma_decimal_digits(n: nat)
    ensures
        decimal_digits(n).len() >= 1,
        forall|i: int| 0 <= i < decimal_digits(n).len() ==> is_digit(#[trigger] decimal_digits(n)[i]),
        decimal_value(decimal_digits(n)) == n,
    decreases n,
{
    if n < 10 {
        let digits = seq![digit_char(n)];
        assert(digits.drop_last() =~= Seq::<char>::empty());
        assert(decimal_value(digits.drop_last()) == 0);
    } else {
        lemma_decimal_digits(n / 10);
        let earlier = decimal_digits(n / 10);
        let digits = earlier.push(digit_char(n % 10));
        assert(digits.drop_last() =~= earlier);
    }
}

/// Whether a text ends with another.
pub open spec fn ends_with(text: Seq<char>, ending: Seq<char>) -> bool {
    &&& text.len() >= ending.len()
    &&& text.subrange(text.len() - ending.len(), text.len() as int) == ending
}

/// A kind of gate over the extension of degree `D`. The three ways to
/// evaluate its constraints give as many residuals as `num_constraints`
/// says.
pub trait Gate<F: PrimeField64, const D: usize>: Sized {
    /// What fills the wires that a row of this gate determines.
    type Generator;

    /// The number of wires of a row that this gate uses.
    spec fn wires(&self) -> nat;

    /// The number of constraints of this gate.
    spec fn constraints(&self) -> nat;

    /// The end of the name of this gate: the part that tells its
    /// parameters.
    spec fn id_ending(&self) -> Seq<char>;

    /// A name that tells the kinds of gate and their parameters apart, for
    /// debugging. It ends as `id_ending` says.
    fn id(&self) -> (id: String)
        ensures
            ends_with(id@, self.id_ending()),
    ;

    /// The residuals of the constraints on a row of elements of the
    /// extension. The relation of this gate holds on the row if and only
    /// if all of them are zero.
    fn eval_unfiltered(&self, vars: EvaluationVars<F, D>) -> (constraints: Vec<Extension<F, D>>)
        requires
            self.wires() <= usize::MAX,
            self.wires() <= vars.local_wires@.len(),
        ensures
            constraints@.len() == self.constraints(),
    ;

    /// The residuals of the constraints on a row of elements of the
    /// field, handed to `yield_constr`.
    fn eval_unfiltered_base_one(
        &self,
        vars: EvaluationVarsBase<F>,
        yield_constr: &mut StridedConstraintConsumer<F>,
    )
        requires
            self.wires() <= usize::MAX,
            self.wires() <= vars.local_wires@.len(),
        ensures
            final(yield_constr).terms@.len() == old(yield_constr).terms@.len() + self.constraints(),
            forall|n: int|
                0 <= n < old(yield_constr).terms@.len() ==> final(yield_constr).terms@[n] == old(
                    yield_constr,
                ).terms@[n],
    ;

    /// The residuals of the constraints on a row of extension targets, as
    /// rows of a circuit.
    fn eval_unfiltered_circuit(
        &self,
        builder: &mut CircuitBuilder<F, D>,
        vars: EvaluationTargets<D>,
    ) -> (constraints: Vec<ExtensionTarget<D>>)
        requires
            self.wires() <= usize::MAX,
            self.wires() <= vars.local_wires@.len(),
        ensures
            constraints@.len() == self.constraints(),
            final(builder).extends(*old(builder)),
            forall|values: Map<crate::iop::target::Target, int>| #[trigger]
                final(builder).satisfied_by(values) ==> old(builder).satisfied_by(values),
    ;

    /// The generators that fill the wires of a row of this gate.
    fn generators(&self, row: usize, local_constants: &[F]) -> Vec<Self::Generator>;

    /// The number of wires of a row that this gate uses.
    fn num_wires(&self) -> (n: usize)
        requires
            self.wires() <= usize::MAX,
        ensures
            n == self.wires(),
    ;

    /// The number of constants that a row of this gate uses.
    fn num_constants(&self) -> usize;

    /// The largest degree of a constraint of this gate.
    fn degree(&self) -> usize;

    /// The number of constraints of this gate.
    fn num_constraints(&self) -> (n: usize)
        requires
            self.wires() <= usize::MAX,
        ensures
            n == self.constraints(),
    ;
}

} // verus!
