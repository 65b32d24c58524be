use vstd::prelude::*;

verus! {

/// A value outside its allowed range.
#[derive(Debug, Clone, PartialEq, Eq)]
pub struct RangeError {
    pub label: String,
    pub min: u32,
    pub max: u32,
}

/// Checks that `min <= value <= max`; otherwise names the value by `label`
/// and gives the range.
pub fn is_between(value: &u32, min: u32, max: u32, label: &str) -> (r: Result<(), RangeError>)
    ensures
        r is Ok <==> min <= *value <= max,
        r matches Err(e) ==> e.label@ == label@ && e.min == min && e.max == max,
{
    if *value >= min && *value <= max {
        Ok(())
    } else {
        Err(RangeError { label: String::from_str(label), min, max })
    }
}

} // verus!
