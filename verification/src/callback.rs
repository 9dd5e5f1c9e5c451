//! Decisions taken while the generator runs: cross-checking emitted
//! function names against the catalog, and assigning fixed-width integer
//! kinds to numeric macros.

use crate::doc::{OdpicDoc, UnderlyingType};
use crate::strutil::str_eq;
use vstd::prelude::*;

verus! {

/// Fixed-width integer kind assigned to a numeric macro.
#[derive(Clone, Copy, Debug, PartialEq, Eq, Structural)]
pub enum IntKind {
    I32,
    U8,
    U16,
    U32,
}

/// The integer kind assigned to a macro name: the universal success-code
/// macro is always a signed 32-bit integer; any other name is typed by its
/// declared width in the catalog, if it has one.
pub open spec fn spec_int_macro(m: Map<Seq<char>, UnderlyingType>, name: Seq<char>) -> Option<
    IntKind,
> {
    if name == "DPI_SUCCESS"@ {
        Some(IntKind::I32)
    } else if m.contains_key(name) {
        Some(
            match m[name] {
                UnderlyingType::Uint8 => IntKind::U8,
                UnderlyingType::Uint16 => IntKind::U16,
                UnderlyingType::Uint32 => IntKind::U32,
            },
        )
    } else {
        None
    }
}

/// Assign an integer kind to a numeric macro definition.
pub fn int_macro(doc: &OdpicDoc, name: &str) -> (r: Option<IntKind>)
    requires
        doc.wf(),
    ensures
        r == spec_int_macro(doc.underlying_type_map@, name@),
{
    if str_eq(name, "DPI_SUCCESS") {
        return Some(IntKind::I32);
    }
    match doc.find_underlying_type(name) {
        Some(UnderlyingType::Uint8) => Some(IntKind::U8),
        Some(UnderlyingType::Uint16) => Some(IntKind::U16),
        Some(UnderlyingType::Uint32) => Some(IntKind::U32),
        None => None,
    }
}

/// Law: a macro name carried in the width index with a 16-bit width is
/// typed as an unsigned 16-bit integer (and likewise for the other
/// widths), while the universal success-code macro is typed as a signed
/// 32-bit integer whatever the catalog holds.
pub proof fn lemma_macro_typing(m: Map<Seq<char>, UnderlyingType>, name: Seq<char>)
    ensures
        spec_int_macro(m, "DPI_SUCCESS"@) == Some(IntKind::I32),
        name != "DPI_SUCCESS"@ && m.contains_key(name) && m[name] == UnderlyingType::Uint16
            ==> spec_int_macro(m, name) == Some(IntKind::U16),
        name != "DPI_SUCCESS"@ && m.contains_key(name) && m[name] == UnderlyingType::Uint8
            ==> spec_int_macro(m, name) == Some(IntKind::U8),
        name != "DPI_SUCCESS"@ && m.contains_key(name) && m[name] == UnderlyingType::Uint32
            ==> spec_int_macro(m, name) == Some(IntKind::U32),
        name != "DPI_SUCCESS"@ && !m.contains_key(name) ==> spec_int_macro(m, name).is_none(),
{
}

/// The operator diagnostic for a generated function the catalog does not
/// classify.
pub open spec fn spec_unlisted_warning(name: Seq<char>) -> Seq<char> {
    "WARNING: "@ + name + " isn't listed in round_trips.rst"@
}

/// Cross-check one emitted declaration name against the catalog's
/// round-trip index; a function name the catalog does not list yields a
/// diagnostic for the operator.
pub fn unlisted_function_warning(doc: &OdpicDoc, is_function: bool, name: &str) -> (r: Option<
    String,
>)
    requires
        doc.wf(),
    ensures
        match r {
            Some(w) => is_function && !doc.round_trips_map@.contains_key(name@) && w@
                == spec_unlisted_warning(name@),
            None => !is_function || doc.round_trips_map@.contains_key(name@),
        },
{
    if is_function && !doc.round_trips_map.contains_key(name) {
        let w = String::from_str("WARNING: ").concat(name).concat(
            " isn't listed in round_trips.rst",
        );
        Some(w)
    } else {
        None
    }
}

} // verus!
