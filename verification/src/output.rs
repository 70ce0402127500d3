//! Names for the files that hold one verse each.

use vstd::prelude::*;
use vstd::string::StringExecFns;

use crate::text::{decimal_label, decimal_text};

verus! {

/// The path of the file for verse `number`: the directory, a `/`, the number, a `-`, and the
/// name that the output file was given.
pub open spec fn numbered_path(directory: Seq<char>, number: nat, file_name: Seq<char>) -> Seq<
    char,
> {
    directory + seq!['/'] + decimal_text(number) + seq!['-'] + file_name
}

/// Builds the path to which verse `number` is written when every verse gets a file of its own.
pub fn numbered_output(directory: &str, number: u32, file_name: &str) -> (path: String)
    ensures
        path@ == numbered_path(directory@, number as nat, file_name@),
{
    proof {
        reveal_strlit("/");
        reveal_strlit("-");
    }
    let label: String = decimal_label(number);
    let mut path: String = String::from_str(directory);
    path.append("/");
    path.append(label.as_str());
    path.append("-");
    path.append(file_name);
    assert(path@ =~= numbered_path(directory@, number as nat, file_name@));
    path
}

} // verus!
