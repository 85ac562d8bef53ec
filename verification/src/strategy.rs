//! The wrap strategy: what becomes of a unit's output when its input is
//! exhausted.

use vstd::prelude::*;
use vstd::string::StringExecFns;

verus! {

/// Policy applied to a replay unit's output file when the end of its sample
/// input is reached, before the read cursor goes back to the start.
///
/// - `Truncate`: the output file is reset to empty and refilled.
/// - `Append`: the output file keeps growing forever.
/// - `Rotate`: the output file is renamed to `<path>.rotated` (overwriting
///   any earlier rotated file) and a fresh empty output file is begun.
#[derive(Debug, Clone, Copy, PartialEq, Eq, Structural)]
pub enum WrapStrategy {
    Truncate,
    Append,
    Rotate,
}

impl WrapStrategy {
    /// Reads a strategy from its command-line name; any unknown name falls
    /// back to `default`.
    pub fn from_str(v: &str, default: WrapStrategy) -> (r: WrapStrategy)
        ensures
            v@ == "truncate"@ ==> r == WrapStrategy::Truncate,
            v@ == "append"@ ==> r == WrapStrategy::Append,
            v@ == "rotate"@ ==> r == WrapStrategy::Rotate,
            v@ != "truncate"@ && v@ != "append"@ && v@ != "rotate"@ ==> r == default,
    {
        proof {
            reveal_strlit("truncate");
            reveal_strlit("append");
            reveal_strlit("rotate");
            // the three names differ pairwise, so at most one branch fits
            assert("truncate"@.len() == 8);
            assert("append"@.len() == 6);
            assert("rotate"@.len() == 6);
            assert("append"@[0] == 'a');
            assert("rotate"@[0] == 'r');
            assert("truncate"@ != "append"@);
            assert("append"@ != "rotate"@);
            assert("truncate"@ != "rotate"@);
        }
        let s = v.to_owned();
        if s == String::from_str("truncate") {
            WrapStrategy::Truncate
        } else if s == String::from_str("append") {
            WrapStrategy::Append
        } else if s == String::from_str("rotate") {
            WrapStrategy::Rotate
        } else {
            default
        }
    }
}

} // verus!
