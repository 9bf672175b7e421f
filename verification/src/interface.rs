//! Choosing the capture interface: the automatic pick in Docker mode and
//! the validation of an interactive selection.  Enumerating interfaces
//! and prompting are the embedding process's work; it hands the names
//! here.

use vstd::prelude::*;

use crate::errors::InterfaceError;
use crate::text::str_eq;

verus! {

/// Picks the interface a Docker-mode node must use: the first whose
/// name matches.  An empty list and a missing name are distinct errors.
pub fn select_docker_interface(names: &Vec<String>, docker_interface_name: &str) -> (r: Result<
    usize,
    InterfaceError,
>)
    ensures
        names@.len() == 0 ==> (r matches Err(e) && e is NoAvailableNetworkInterfaceError),
        (names@.len() > 0 && (exists|i: int|
            0 <= i < names@.len() && (#[trigger] names@[i])@ == docker_interface_name@)) ==> (
        r matches Ok(k) && k < names@.len() && names@[k as int]@ == docker_interface_name@
            && (forall|j: int| 0 <= j < k ==> (#[trigger] names@[j])@ != docker_interface_name@)),
        (names@.len() > 0 && (forall|i: int|
            0 <= i < names@.len() ==> (#[trigger] names@[i])@ != docker_interface_name@)) ==> (
        r matches Err(e) && e is DockerInterfaceNotFound),
{
    if names.len() == 0 {
        return Err(InterfaceError::NoAvailableNetworkInterfaceError);
    }
    let mut i: usize = 0;
    while i < names.len()
        invariant
            i <= names@.len(),
            forall|j: int| 0 <= j < i ==> (#[trigger] names@[j])@ != docker_interface_name@,
        decreases names@.len() - i,
    {
        if str_eq(names[i].as_str(), docker_interface_name) {
            return Ok(i);
        }
        i = i + 1;
    }
    Err(InterfaceError::DockerInterfaceNotFound(String::new()))
}

/// Validates a one-based interactive selection against the number of
/// interfaces offered, returning the zero-based index.
pub fn validate_selection(selection: usize, count: usize) -> (r: Result<usize, InterfaceError>)
    ensures
        (1 <= selection <= count) ==> r == Ok::<usize, InterfaceError>((selection - 1) as usize),
        !(1 <= selection <= count) ==> (r matches Err(e)
            && e is OutOfRangeInterfaceNumberError),
{
    if selection < 1 || selection > count {
        return Err(InterfaceError::OutOfRangeInterfaceNumberError);
    }
    Ok(selection - 1)
}

} // verus!
