//! Spherical-harmonics bookkeeping.
//!
//! Color evaluation from directional-basis coefficients is owned by an
//! external collaborator; the pipeline only needs the correspondence between
//! a harmonics degree and its number of basis functions.

use vstd::prelude::*;

verus! {

/// Number of spherical-harmonics basis functions for a degree.
pub open spec fn num_sh_bases_s(degree: int) -> int {
    if degree == 0 {
        1
    } else if degree == 1 {
        4
    } else if degree == 2 {
        9
    } else if degree == 3 {
        16
    } else {
        25
    }
}

/// Degree encoded by a basis-function count, defined on the counts that
/// [`num_sh_bases_s`] produces.
pub open spec fn deg_from_sh_s(num_bases: int) -> int {
    if num_bases == 1 {
        0
    } else if num_bases == 4 {
        1
    } else if num_bases == 9 {
        2
    } else if num_bases == 16 {
        3
    } else {
        4
    }
}

/// Number of spherical-harmonics basis functions for a degree.
pub fn num_sh_bases(degree: usize) -> (r: usize)
    ensures
        r == num_sh_bases_s(degree as int),
{
    if degree == 0 {
        1
    } else if degree == 1 {
        4
    } else if degree == 2 {
        9
    } else if degree == 3 {
        16
    } else {
        25
    }
}

/// Degree for a basis-function count.  Counts that no degree produces are
/// rejected by the caller, so they are excluded here.
pub fn deg_from_sh(num_bases: usize) -> (r: usize)
    requires
        num_bases == 1 || num_bases == 4 || num_bases == 9 || num_bases == 16 || num_bases == 25,
    ensures
        r == deg_from_sh_s(num_bases as int),
        num_sh_bases_s(r as int) == num_bases,
{
    if num_bases == 1 {
        0
    } else if num_bases == 4 {
        1
    } else if num_bases == 9 {
        2
    } else if num_bases == 16 {
        3
    } else {
        4
    }
}

} // verus!
