//! Course-name lookup: maps the names and aliases a user may type to the
//! numeric course identifiers of the portal.

use vstd::prelude::*;
use crate::text::str_eq;
use vstd::string::*;

verus! {

/// What `str::to_lowercase` returns: a function of the characters alone.
pub uninterp spec fn lower_of(s: Seq<char>) -> Seq<char>;

/// Relies on `str::to_lowercase`: the Unicode lowercase mapping, which
/// depends on the characters alone.
#[verifier::external_body]
fn lowercase(s: &str) -> (r: String)
    ensures
        r@ == lower_of(s@),
{
    s.to_lowercase()
}

/// The identifier each known course name stands for, over an already
/// case-folded name.
pub open spec fn course_id_of(folded: Seq<char>) -> Option<u64> {
    if folded == "cs2500"@ || folded == "fundies1"@ || folded == "f1"@ {
        Some(131)
    } else if folded == "cs2510"@ || folded == "fundies2"@ || folded == "f2"@ {
        Some(129)
    } else if folded == "cs2510a"@ || folded == "fundies2accel"@ || folded == "f2accel"@ || folded
        == "f2a"@ {
        Some(126)
    } else if folded == "cs3500"@ || folded == "ood"@ {
        Some(138)
    } else if folded == "cs3500sp21"@ || folded == "oodsp21"@ {
        Some(133)
    } else if folded == "cs4410"@ || folded == "compilers"@ {
        Some(127)
    } else if folded == "cs4500"@ || folded == "swdev"@ || folded == "swe"@ {
        Some(130)
    } else {
        None
    }
}

/// Look a course up by its already case-folded name.
pub fn lookup_course_folded(folded: &str) -> (r: Result<u64, &'static str>)
    ensures
        (r matches Ok(id) ==> course_id_of(folded@) == Some(id)),
        (r matches Err(m) ==> course_id_of(folded@) is None && m@ == "Course not found"@),
{
    if str_eq(folded, "cs2500") || str_eq(folded, "fundies1") || str_eq(folded, "f1") {
        Ok(131)
    } else if str_eq(folded, "cs2510") || str_eq(folded, "fundies2") || str_eq(folded, "f2") {
        Ok(129)
    } else if str_eq(folded, "cs2510a") || str_eq(folded, "fundies2accel") || str_eq(
        folded,
        "f2accel",
    ) || str_eq(folded, "f2a") {
        Ok(126)
    } else if str_eq(folded, "cs3500") || str_eq(folded, "ood") {
        Ok(138)
    } else if str_eq(folded, "cs3500sp21") || str_eq(folded, "oodsp21") {
        Ok(133)
    } else if str_eq(folded, "cs4410") || str_eq(folded, "compilers") {
        Ok(127)
    } else if str_eq(folded, "cs4500") || str_eq(folded, "swdev") || str_eq(folded, "swe") {
        Ok(130)
    } else {
        Err("Course not found")
    }
}

/// Look a course up by name, case-insensitively.
pub fn lookup_course(course: &str) -> (r: Result<u64, &'static str>)
    ensures
        (r matches Ok(id) ==> course_id_of(lower_of(course@)) == Some(id)),
        (r matches Err(m) ==> course_id_of(lower_of(course@)) is None && m@
            == "Course not found"@),
{
    let folded = lowercase(course);
    lookup_course_folded(folded.as_str())
}

} // verus!
