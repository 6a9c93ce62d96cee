//! The canonical registry of behavioral axes. A snapshot may only carry
//! values for axis names that this registry recognizes.

use vstd::prelude::*;
use crate::text::str_eq;
use vstd::string::StringExecFns;

verus! {

/// The names this registry recognizes.
pub open spec fn canonical_axis_names() -> Seq<Seq<char>> {
    seq![
        "warmth"@,
        "formality"@,
        "directness"@,
        "humor"@,
        "patience"@,
        "verbosity"@,
        "urgency"@,
        "empathy"@,
    ]
}

/// True when `name` is one of the canonical axis names.
pub open spec fn is_canonical_axis_name(name: Seq<char>) -> bool {
    canonical_axis_names().contains(name)
}

/// Recognizes the canonical axis names.
pub fn is_canonical_axis(name: &str) -> (r: bool)
    ensures
        r == is_canonical_axis_name(name@),
{
    let r = str_eq(name, "warmth") || str_eq(name, "formality") || str_eq(name, "directness")
        || str_eq(name, "humor") || str_eq(name, "patience") || str_eq(name, "verbosity")
        || str_eq(name, "urgency") || str_eq(name, "empathy");
    proof {
        if r {
            assert(canonical_axis_names().contains(name@)) by {
                if name@ == "warmth"@ {
                    assert(canonical_axis_names()[0] == name@);
                } else if name@ == "formality"@ {
                    assert(canonical_axis_names()[1] == name@);
                } else if name@ == "directness"@ {
                    assert(canonical_axis_names()[2] == name@);
                } else if name@ == "humor"@ {
                    assert(canonical_axis_names()[3] == name@);
                } else if name@ == "patience"@ {
                    assert(canonical_axis_names()[4] == name@);
                } else if name@ == "verbosity"@ {
                    assert(canonical_axis_names()[5] == name@);
                } else if name@ == "urgency"@ {
                    assert(canonical_axis_names()[6] == name@);
                } else {
                    assert(canonical_axis_names()[7] == name@);
                }
            }
        } else {
            assert(!canonical_axis_names().contains(name@)) by {
                assert forall|i: int|
                    0 <= i < canonical_axis_names().len() implies canonical_axis_names()[i]
                    != name@ by {
                    assert(canonical_axis_names()[0] == "warmth"@);
                    assert(canonical_axis_names()[1] == "formality"@);
                    assert(canonical_axis_names()[2] == "directness"@);
                    assert(canonical_axis_names()[3] == "humor"@);
                    assert(canonical_axis_names()[4] == "patience"@);
                    assert(canonical_axis_names()[5] == "verbosity"@);
                    assert(canonical_axis_names()[6] == "urgency"@);
                    assert(canonical_axis_names()[7] == "empathy"@);
                }
            }
        }
    }
    r
}

/// The canonical axis names, as owned strings in registry order.
pub fn canonical_axes() -> (r: Vec<String>)
    ensures
        r@.len() == canonical_axis_names().len(),
        forall|i: int| 0 <= i < r@.len() ==> r@[i]@ == canonical_axis_names()[i],
{
    let mut v: Vec<String> = Vec::new();
    v.push(String::from_str("warmth"));
    v.push(String::from_str("formality"));
    v.push(String::from_str("directness"));
    v.push(String::from_str("humor"));
    v.push(String::from_str("patience"));
    v.push(String::from_str("verbosity"));
    v.push(String::from_str("urgency"));
    v.push(String::from_str("empathy"));
    proof {
        assert(canonical_axis_names()[0] == "warmth"@);
        assert(canonical_axis_names()[1] == "formality"@);
        assert(canonical_axis_names()[2] == "directness"@);
        assert(canonical_axis_names()[3] == "humor"@);
        assert(canonical_axis_names()[4] == "patience"@);
        assert(canonical_axis_names()[5] == "verbosity"@);
        assert(canonical_axis_names()[6] == "urgency"@);
        assert(canonical_axis_names()[7] == "empathy"@);
    }
    v
}

} // verus!
