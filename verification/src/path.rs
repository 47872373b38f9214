//! File paths as strings, with `/` between a directory and what is in it.

use vstd::prelude::*;
use vstd::string::StringExecFns;

verus! {

/// The path of `name` inside the directory `dir`: `name` alone where `dir` is
/// empty or `name` starts at the root, else `dir`, a `/` unless `dir` ends in
/// one, and `name`.
pub open spec fn spec_join(dir: Seq<char>, name: Seq<char>) -> Seq<char> {
    if dir.len() == 0 || (name.len() > 0 && name[0] == '/') {
        name
    } else if dir.last() == '/' {
        dir + name
    } else {
        dir + seq!['/'] + name
    }
}

/// The path of `name` inside the directory `dir`.
pub fn join(dir: &str, name: &str) -> (r: String)
    ensures
        r@ == spec_join(dir@, name@),
{
    let dir_len = dir.unicode_len();
    let name_len = name.unicode_len();
    if dir_len == 0 || (name_len > 0 && name.get_char(0) == '/') {
        String::from_str(name)
    } else if dir.get_char(dir_len - 1) == '/' {
        String::from_str(dir).concat(name)
    } else {
        proof {
            reveal_strlit("/");
            assert("/"@ =~= seq!['/']);
        }
        String::from_str(dir).concat("/").concat(name)
    }
}

} // verus!
