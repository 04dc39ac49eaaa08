//! The values that targets have been given: each target at most once.

use crate::field::extension::Extension;
use crate::field::types::PrimeField64;
use crate::iop::ext_target::{ext_target_value, ExtensionTarget};
use crate::iop::target::Target;
use vstd::prelude::*;

verus! {

/// The assignment that a list of targets with their values stands for:
/// each target with the first value that the list gives it.
pub open spec fn assignment_of<F: PrimeField64>(entries: Seq<(Target, F)>) -> Map<Target, int>
    decreases entries.len(),
{
    if entries.len() == 0 {
        Map::empty()
    } else {
        let earlier = assignment_of(entries.drop_last());
        let last = entries.last();
        if earlier.dom().contains(last.0) {
            earlier
        } else {
            earlier.insert(last.0, last.1.value())
        }
    }
}

/// A target that the first `n` entries do not name is given the value of
/// the first later entry that names it.
pub proof fn lemma_assignment_of_first<F: PrimeField64>(entries: Seq<(Target, F)>, i: int)
    requires
        0 <= i < entries.len(),
        forall|j: int| 0 <= j < i ==> entries[j].0 != entries[i].0,
    ensures
        assignment_of(entries).dom().contains(entries[i].0),
        assignment_of(entries)[entries[i].0] == entries[i].1.value(),
    decreases entries.len(),
{
    let earlier = entries.drop_last();
    if i < entries.len() - 1 {
        lemma_assignment_of_first(earlier, i);
    } else {
        lemma_assignment_of_absent(earlier, entries[i].0);
    }
}

/// A target that no entry names is given no value.
pub proof fn lemma_assignment_of_absent<F: PrimeField64>(entries: Seq<(Target, F)>, target: Target)
    requires
        forall|j: int| 0 <= j < entries.len() ==> entries[j].0 != target,
    ensures
        !assignment_of(entries).dom().contains(target),
    decreases entries.len(),
{
    if entries.len() > 0 {
        lemma_assignment_of_absent(entries.drop_last(), target);
    }
}

/// Whether the assignment gives a value to every one of the targets.
pub open spec fn assigns_all(values: Map<Target, int>, targets: Seq<Target>) -> bool {
    forall|n: int| 0 <= n < targets.len() ==> values.dom().contains(#[trigger] targets[n])
}

/// A partial assignment of values to targets, in which a target, once
/// given a value, keeps it.
pub struct PartitionWitness<F: PrimeField64> {
    pub target_values: Vec<(Target, F)>,
}

impl<F: PrimeField64> View for PartitionWitness<F> {
    type V = Map<Target, int>;

    open spec fn view(&self) -> Map<Target, int> {
        assignment_of(self.target_values@)
    }
}

impl<F: PrimeField64> PartitionWitness<F> {
    /// The witness that gives no target a value.
    pub fn new() -> (witness: Self)
        ensures
            witness@ == Map::<Target, int>::empty(),
    {
        PartitionWitness { target_values: Vec::new() }
    }

    /// The value of a target, if it has one.
    pub fn try_get_target(&self, target: Target) -> (value: Option<F>)
        ensures
            match value {
                Some(v) => self@.dom().contains(target) && v.value() == self@[target],
                None => !self@.dom().contains(target),
            },
    {
        let mut i: usize = 0;
        while i < self.target_values.len()
            invariant
                i <= self.target_values@.len(),
                forall|j: int| 0 <= j < i ==> self.target_values@[j].0 != target,
            decreases self.target_values@.len() - i,
        {
            if self.target_values[i].0 == target {
                proof {
                    lemma_assignment_of_first(self.target_values@, i as int);
                }
                return Some(self.target_values[i].1);
            }
            i += 1;
        }
        proof {
            lemma_assignment_of_absent(self.target_values@, target);
        }
        None
    }

    /// Whether a target has a value.
    pub fn contains(&self, target: Target) -> (r: bool)
        ensures
            r == self@.dom().contains(target),
    {
        self.try_get_target(target).is_some()
    }

    /// Whether every one of the targets has a value.
    pub fn contains_all(&self, targets: &[Target]) -> (r: bool)
        ensures
            r == assigns_all(self@, targets@),
    {
        for n in 0..targets.len()
            invariant
                forall|j: int| 0 <= j < n ==> self@.dom().contains(#[trigger] targets@[j]),
        {
            if !self.contains(targets[n]) {
                return false;
            }
        }
        true
    }

    /// The value of a target that has one.
    pub fn get_target(&self, target: Target) -> (value: F)
        requires
            self@.dom().contains(target),
        ensures
            value.value() == self@[target],
    {
        match self.try_get_target(target) {
            Some(value) => value,
            None => F::zero(),
        }
    }

    /// The element of the extension that an extension target holds, all of
    /// whose targets have a value.
    pub fn get_extension_target<const D: usize>(&self, et: ExtensionTarget<D>) -> (value: Extension<
        F,
        D,
    >)
        requires
            assigns_all(self@, et.0@),
        ensures
            value@ == ext_target_value(self@, et),
    {
        let mut coefficients = [F::zero();D];
        for k in 0..D
            invariant
                assigns_all(self@, et.0@),
                forall|j: int| 0 <= j < k ==> (#[trigger] coefficients[j]).value() == self@[et.0[j]],
        {
            assert(self@.dom().contains(et.0@[k as int]));
            coefficients[k] = self.get_target(et.0[k]);
        }
        let value = Extension::from_basefield_array(coefficients);
        assert(value@ =~= ext_target_value(self@, et));
        value
    }

    /// The element of the extension that an extension target holds, if
    /// all its targets have a value.
    pub fn try_get_extension_target<const D: usize>(&self, et: ExtensionTarget<D>) -> (value:
        Option<Extension<F, D>>)
        ensures
            value is Some == assigns_all(self@, et.0@),
            value is Some ==> value->0@ == ext_target_value(self@, et),
    {
        if self.contains_all(et.0.as_slice()) {
            Some(self.get_extension_target(et))
        } else {
            None
        }
    }

    /// Gives a target a value. A target that has a value can only be given
    /// the same value again.
    pub fn set_target(&mut self, target: Target, value: F)
        requires
            old(self)@.dom().contains(target) ==> old(self)@[target] == value.value(),
        ensures
            final(self)@ == old(self)@.insert(target, value.value()),
    {
        self.target_values.push((target, value));
        proof {
            assert(self.target_values@.drop_last() =~= old(self).target_values@);
            assert(self@ =~= old(self)@.insert(target, value.value()));
        }
    }

    /// Gives a target a value unless it has another one already; says
    /// whether it did, and changes nothing if it did not.
    pub fn try_set_target(&mut self, target: Target, value: F) -> (done: bool)
        ensures
            done == (old(self)@.dom().contains(target) ==> old(self)@[target] == value.value()),
            done ==> final(self)@ == old(self)@.insert(target, value.value()),
            !done ==> final(self)@ == old(self)@,
    {
        match self.try_get_target(target) {
            Some(existing) => {
                if existing.to_canonical_u64() != value.to_canonical_u64() {
                    return false;
                }
            },
            None => {},
        }
        self.set_target(target, value);
        true
    }
}

/// The values that a generator has produced, in the order in which it
/// produced them.
pub struct GeneratedValues<F: PrimeField64> {
    pub target_values: Vec<(Target, F)>,
}

/// The targets and canonical values of a list of produced values.
pub open spec fn generated_entries<F: PrimeField64>(entries: Seq<(Target, F)>) -> Seq<
    (Target, int),
> {
    Seq::new(entries.len(), |n: int| (entries[n].0, entries[n].1.value()))
}

impl<F: PrimeField64> View for GeneratedValues<F> {
    type V = Seq<(Target, int)>;

    open spec fn view(&self) -> Seq<(Target, int)> {
        generated_entries(self.target_values@)
    }
}

/// The coefficients of an element of the extension, each with the target
/// of an extension target that is to hold it.
pub open spec fn extension_entries<const D: usize>(et: ExtensionTarget<D>, value: Seq<int>) -> Seq<
    (Target, int),
> {
    Seq::new(D as nat, |k: int| (et.0[k], value[k]))
}

impl<F: PrimeField64> GeneratedValues<F> {
    pub fn empty() -> (buffer: Self)
        ensures
            buffer@.len() == 0,
    {
        GeneratedValues { target_values: Vec::new() }
    }

    /// Records a value for a target.
    pub fn set_target(&mut self, target: Target, value: F)
        ensures
            final(self)@ == old(self)@.push((target, value.value())),
    {
        self.target_values.push((target, value));
        assert(self@ =~= old(self)@.push((target, value.value())));
    }

    /// Records the coefficients of an element of the extension for the
    /// targets of an extension target.
    pub fn set_extension_target<const D: usize>(
        &mut self,
        et: ExtensionTarget<D>,
        value: Extension<F, D>,
    )
        ensures
            final(self)@ == old(self)@ + extension_entries(et, value@),
    {
        let coefficients = value.to_basefield_array();
        for k in 0..D
            invariant
                coefficients == value.0,
                self@ == old(self)@ + extension_entries(et, value@).subrange(0, k as int),
        {
            self.set_target(et.0[k], coefficients[k]);
            assert(extension_entries(et, value@).subrange(0, k + 1) =~= extension_entries(
                et,
                value@,
            ).subrange(0, k as int).push((et.0[k as int], value@[k as int])));
        }
        assert(extension_entries(et, value@).subrange(0, D as int) =~= extension_entries(
            et,
            value@,
        ));
    }
}

} // verus!
