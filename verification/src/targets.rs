//! Checking a chip selection against the registry of known targets.
//!
//! The registry belongs to `probe-rs`. This crate asks it one question, which
//! chip types a family has, and decides from the answer whether a selection
//! of family and chip type refers to something the registry knows.

use vstd::prelude::*;
use probe_rs::config::{Registry, RegistryError};

verus! {

/// `probe_rs::config::Registry`, the list of chip families that `probe-rs`
/// knows. Nothing inside it is visible here.
#[verifier::external_type_specification]
#[verifier::external_body]
pub struct ExRegistry(Registry);

/// `probe_rs::config::RegistryError`, what a failed registry query returns.
/// Nothing inside it is visible here.
#[verifier::external_type_specification]
#[verifier::external_body]
pub struct ExRegistryError(RegistryError);

/// The chip types that `Registry::get_targets_by_family_name` reports for
/// `family` in `registry`, in the order it reports them; `None` where it
/// reports an error. How a family is matched against the name is the
/// registry's business and is not described here.
pub uninterp spec fn registry_targets(registry: Registry, family: Seq<char>) -> Option<
    Seq<Seq<char>>,
>;

/// Calls `Registry::get_targets_by_family_name`. The method walks the
/// registry's families in order and reads nothing else, so its answer depends
/// on the registry and the name alone; the contract gives that answer its
/// name, `registry_targets`, and claims no more.
#[verifier::external_body]
fn lookup_targets(registry: &Registry, family: &str) -> (r: Result<Vec<String>, RegistryError>)
    ensures
        match r {
            Ok(names) => registry_targets(*registry, family@) == Some(names.deep_view()),
            Err(_) => registry_targets(*registry, family@) is None,
        },
{
    registry.get_targets_by_family_name(family)
}

/// Why a selection of chip family and chip type is not accepted.
#[derive(Clone, Copy, Debug, PartialEq, Eq, Structural)]
pub enum SelectionError {
    /// The registry has no family for the given name.
    UnknownFamily,
    /// The family does not list the given chip type.
    UnknownChipType,
}

/// The verdict on a selection, given what the registry found for its family:
/// no family, then `UnknownFamily`; a family that does not list `chip_type`
/// letter for letter, then `UnknownChipType`; otherwise the selection stands.
pub open spec fn selection_verdict(found: Option<Seq<Seq<char>>>, chip_type: Seq<char>) -> Result<
    (),
    SelectionError,
> {
    match found {
        None => Err(SelectionError::UnknownFamily),
        Some(targets) => if targets.contains(chip_type) {
            Ok(())
        } else {
            Err(SelectionError::UnknownChipType)
        },
    }
}

/// The chip types of the family called `family`, or `UnknownFamily` where
/// the registry finds no such family.
pub fn targets_for_family(registry: &Registry, family: &str) -> (r: Result<
    Vec<String>,
    SelectionError,
>)
    ensures
        match registry_targets(*registry, family@) {
            Some(names) => r matches Ok(targets) && targets.deep_view() == names,
            None => r == Err::<Vec<String>, SelectionError>(SelectionError::UnknownFamily),
        },
{
    match lookup_targets(registry, family) {
        Ok(targets) => Ok(targets),
        Err(_) => Err(SelectionError::UnknownFamily),
    }
}

/// Whether `targets` lists `chip_type`, letter for letter.
pub fn check_chip_type(targets: &Vec<String>, chip_type: &str) -> (r: Result<(), SelectionError>)
    ensures
        r == selection_verdict(Some(targets.deep_view()), chip_type@),
{
    let ghost names = targets.deep_view();
    let mut i: usize = 0;
    while i < targets.len()
        invariant
            i <= targets.len(),
            names == targets.deep_view(),
            forall|j: int| 0 <= j < i ==> names[j] != chip_type@,
        decreases targets.len() - i,
    {
        if *targets[i].as_str() == *chip_type {
            assert(names[i as int] == chip_type@);
            return Ok(());
        }
        i += 1;
    }
    Err(SelectionError::UnknownChipType)
}

/// Checks that `chip_series` is a family of `registry` and that this family
/// lists `chip_type`.
pub fn check_selection(registry: &Registry, chip_series: &str, chip_type: &str) -> (r: Result<
    (),
    SelectionError,
>)
    ensures
        r == selection_verdict(registry_targets(*registry, chip_series@), chip_type@),
{
    match targets_for_family(registry, chip_series) {
        Ok(targets) => check_chip_type(&targets, chip_type),
        Err(e) => Err(e),
    }
}

} // verus!
