//! Configuration of the three binding-generation passes, derived from the
//! catalog's round-trip classifications.

use crate::doc::{OdpicDoc, RoundTrips};
use vstd::prelude::*;

verus! {

/// Whether a sequence of names holds a given name.
pub open spec fn str_vec_contains(v: Seq<String>, k: Seq<char>) -> bool {
    exists|i: int| 0 <= i < v.len() && (#[trigger] v[i])@ == k
}

/// Which header a generation pass reads.
#[derive(Clone, Copy, Debug, PartialEq, Eq, Structural)]
pub enum HeaderSource {
    Public,
    Internal,
}

/// The configuration surface handed to the binding generator for one pass.
#[derive(Clone, Debug)]
pub struct BindingPassConfig {
    pub header: HeaderSource,
    pub allowlist_types: Vec<String>,
    pub allowlist_functions: Vec<String>,
    pub allowlist_vars: Vec<String>,
    pub blocklist_functions: Vec<String>,
    pub bitfield_enums: Vec<String>,
    pub allowlist_recursively: bool,
    pub prepend_enum_name: bool,
    pub derive_default: bool,
    pub annotate: bool,
}

/// The names of the functions whose classification is not `No`: exactly
/// those that may block on network round trips.
pub fn blocking_function_names(doc: &OdpicDoc) -> (r: Vec<String>)
    requires
        doc.wf(),
    ensures
        forall|k: Seq<char>|
            str_vec_contains(r@, k) <==> doc.round_trips_map@.contains_key(k)
                && doc.round_trips_map@[k] != RoundTrips::No,
{
    let n = doc.round_trips_map.num_entries();
    let mut r: Vec<String> = Vec::new();
    let mut i: usize = 0;
    while i < n
        invariant
            doc.wf(),
            n == doc.round_trips_map.entries_seq().len(),
            0 <= i <= n,
            forall|k: Seq<char>|
                str_vec_contains(r@, k) <==> exists|j: int|
                    0 <= j < i && (#[trigger] doc.round_trips_map.entries_seq()[j]).0 == k
                        && doc.round_trips_map.entries_seq()[j].1 != RoundTrips::No,
        decreases n - i,
    {
        let ghost entries = doc.round_trips_map.entries_seq();
        let v = *doc.round_trips_map.value_at(i);
        if v != RoundTrips::No {
            let ghost r0 = r@;
            r.push(doc.round_trips_map.key_at(i).clone());
            proof {
                assert forall|k: Seq<char>| str_vec_contains(r@, k) implies exists|j: int|
                    0 <= j < i + 1 && (#[trigger] entries[j]).0 == k && entries[j].1
                        != RoundTrips::No by {
                    let x = choose|x: int| 0 <= x < r@.len() && (#[trigger] r@[x])@ == k;
                    if x < r0.len() {
                        assert(str_vec_contains(r0, k));
                    } else {
                        assert(entries[i as int].0 == k);
                    }
                }
                assert forall|k: Seq<char>|
                    (exists|j: int|
                        0 <= j < i + 1 && (#[trigger] entries[j]).0 == k && entries[j].1
                            != RoundTrips::No) implies str_vec_contains(r@, k) by {
                    let j = choose|j: int|
                        0 <= j < i + 1 && (#[trigger] entries[j]).0 == k && entries[j].1
                            != RoundTrips::No;
                    if j < i as int {
                        assert(str_vec_contains(r0, k));
                        let x = choose|x: int| 0 <= x < r0.len() && (#[trigger] r0[x])@ == k;
                        assert(r@[x]@ == k);
                    } else {
                        assert(r@[r@.len() - 1]@ == k);
                    }
                }
            }
        } else {
            proof {
                assert forall|k: Seq<char>|
                    (exists|j: int|
                        0 <= j < i + 1 && (#[trigger] entries[j]).0 == k && entries[j].1
                            != RoundTrips::No) implies str_vec_contains(r@, k) by {
                    let j = choose|j: int|
                        0 <= j < i + 1 && (#[trigger] entries[j]).0 == k && entries[j].1
                            != RoundTrips::No;
                    assert(0 <= j < i as int);
                }
            }
        }
        i += 1;
    }
    proof {
        let entries = doc.round_trips_map.entries_seq();
        assert forall|k: Seq<char>| str_vec_contains(r@, k) implies doc.round_trips_map@.contains_key(
            k,
        ) && doc.round_trips_map@[k] != RoundTrips::No by {
            let j = choose|j: int|
                0 <= j < n && (#[trigger] entries[j]).0 == k && entries[j].1 != RoundTrips::No;
            doc.round_trips_map.lemma_entry_in_view(j);
        }
        assert forall|k: Seq<char>|
            doc.round_trips_map@.contains_key(k) && doc.round_trips_map@[k]
                != RoundTrips::No implies str_vec_contains(r@, k) by {
            doc.round_trips_map.lemma_view_in_entries(k);
            let j = choose|j: int| 0 <= j < entries.len() && (#[trigger] entries[j]).0 == k;
            doc.round_trips_map.lemma_entry_in_view(j);
        }
    }
    r
}

/// The default pass: every public-prefix type, function and constant,
/// minus the functions that may block; four flag enums are generated as
/// bitmask types; output is annotated.
pub fn pass_a_config(doc: &OdpicDoc) -> (r: BindingPassConfig)
    requires
        doc.wf(),
    ensures
        r.header == HeaderSource::Public,
        r.allowlist_types@.len() == 1 && r.allowlist_types@[0]@ == "^dpi.*"@,
        r.allowlist_functions@.len() == 1 && r.allowlist_functions@[0]@ == "^dpi.*"@,
        r.allowlist_vars@.len() == 1 && r.allowlist_vars@[0]@ == "^DPI_.*"@,
        forall|k: Seq<char>|
            str_vec_contains(r.blocklist_functions@, k) <==> doc.round_trips_map@.contains_key(k)
                && doc.round_trips_map@[k] != RoundTrips::No,
        r.bitfield_enums@.len() == 4,
        r.bitfield_enums@[0]@ == "dpiExecMode"@,
        r.bitfield_enums@[1]@ == "dpiFetchMode"@,
        r.bitfield_enums@[2]@ == "dpiOpCode"@,
        r.bitfield_enums@[3]@ == "dpiSubscrQOS"@,
        r.allowlist_recursively,
        !r.prepend_enum_name,
        r.derive_default,
        r.annotate,
{
    let blocklist_functions = blocking_function_names(doc);
    BindingPassConfig {
        header: HeaderSource::Public,
        allowlist_types: vec![String::from_str("^dpi.*")],
        allowlist_functions: vec![String::from_str("^dpi.*")],
        allowlist_vars: vec![String::from_str("^DPI_.*")],
        blocklist_functions,
        bitfield_enums: vec![
            String::from_str("dpiExecMode"),
            String::from_str("dpiFetchMode"),
            String::from_str("dpiOpCode"),
            String::from_str("dpiSubscrQOS"),
        ],
        allowlist_recursively: true,
        prepend_enum_name: false,
        derive_default: true,
        annotate: true,
    }
}

/// The blocking pass: recursion disabled, and exactly the functions that
/// may block are allow-listed; output is annotated.
pub fn pass_b_config(doc: &OdpicDoc) -> (r: BindingPassConfig)
    requires
        doc.wf(),
    ensures
        r.header == HeaderSource::Public,
        r.allowlist_types@.len() == 0,
        forall|k: Seq<char>|
            str_vec_contains(r.allowlist_functions@, k) <==> doc.round_trips_map@.contains_key(k)
                && doc.round_trips_map@[k] != RoundTrips::No,
        r.allowlist_vars@.len() == 0,
        r.blocklist_functions@.len() == 0,
        r.bitfield_enums@.len() == 0,
        !r.allowlist_recursively,
        r.prepend_enum_name,
        !r.derive_default,
        r.annotate,
{
    let allowlist_functions = blocking_function_names(doc);
    BindingPassConfig {
        header: HeaderSource::Public,
        allowlist_types: Vec::new(),
        allowlist_functions,
        allowlist_vars: Vec::new(),
        blocklist_functions: Vec::new(),
        bitfield_enums: Vec::new(),
        allowlist_recursively: false,
        prepend_enum_name: true,
        derive_default: false,
        annotate: true,
    }
}

/// The internal-constants pass: only uppercase-prefixed constants from the
/// internal header; nothing is annotated.
pub fn pass_c_config() -> (r: BindingPassConfig)
    ensures
        r.header == HeaderSource::Internal,
        r.allowlist_types@.len() == 0,
        r.allowlist_functions@.len() == 0,
        r.allowlist_vars@.len() == 1 && r.allowlist_vars@[0]@ == "^DPI_.*"@,
        r.blocklist_functions@.len() == 0,
        r.bitfield_enums@.len() == 0,
        r.allowlist_recursively,
        r.prepend_enum_name,
        !r.derive_default,
        !r.annotate,
{
    BindingPassConfig {
        header: HeaderSource::Internal,
        allowlist_types: Vec::new(),
        allowlist_functions: Vec::new(),
        allowlist_vars: vec![String::from_str("^DPI_.*")],
        blocklist_functions: Vec::new(),
        bitfield_enums: Vec::new(),
        allowlist_recursively: true,
        prepend_enum_name: true,
        derive_default: false,
        annotate: false,
    }
}

/// Law: pass A's block list and pass B's allow list both hold exactly the
/// functions classified `Yes` or `Maybe`. So a function that pass A emits
/// is classified `No` whenever it is classified at all, every function
/// that pass B emits may block, and no function name is emitted by both
/// passes.
pub proof fn lemma_pass_partition(
    rt: Map<Seq<char>, RoundTrips>,
    a_blocklist: Seq<String>,
    b_allowlist: Seq<String>,
    k: Seq<char>,
)
    requires
        forall|q: Seq<char>|
            str_vec_contains(a_blocklist, q) <==> rt.contains_key(q) && rt[q] != RoundTrips::No,
        forall|q: Seq<char>|
            str_vec_contains(b_allowlist, q) <==> rt.contains_key(q) && rt[q] != RoundTrips::No,
    ensures
        rt.contains_key(k) && !str_vec_contains(a_blocklist, k) ==> rt[k] == RoundTrips::No,
        str_vec_contains(b_allowlist, k) ==> rt.contains_key(k) && rt[k] != RoundTrips::No,
        !(str_vec_contains(b_allowlist, k) && !str_vec_contains(a_blocklist, k)),
{
}

} // verus!
