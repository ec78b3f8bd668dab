use vstd::prelude::*;
use vstd::string::StringExecFns;

verus! {

/// The file that a plot is saved to: `<output>.png`.
pub fn plot_file_name(output: &str) -> (p: String)
    ensures
        p@ == output@ + ".png"@,
{
    let mut p = String::from_str(output);
    p.append(".png");
    p
}

} // verus!
