//! Which files of the sources directory are proxy sources.
use vstd::prelude::*;

use crate::text::chars_of;

verus! {

/// The file name ends in `.lua`.
pub open spec fn is_lua_name(name: Seq<char>) -> bool {
    name.len() >= 4 && name.skip(name.len() - 4) == ".lua"@
}

/// Whether a file of the sources directory is a source script: its name ends in `.lua`.
pub fn is_source_file(filename: &str) -> (r: bool)
    ensures
        r == is_lua_name(filename@),
{
    proof {
        reveal_strlit(".lua");
    }
    let chars = chars_of(filename);
    let n = chars.len();
    if n < 4 {
        return false;
    }
    let r = chars[n - 4] == '.' && chars[n - 3] == 'l' && chars[n - 2] == 'u' && chars[n - 1] == 'a';
    if r {
        assert(filename@.skip(n - 4) =~= ".lua"@);
    } else {
        assert(filename@.skip(n - 4) != ".lua"@) by {
            if filename@.skip(n - 4) == ".lua"@ {
                assert(filename@.skip(n - 4)[0] == '.');
                assert(filename@.skip(n - 4)[1] == 'l');
                assert(filename@.skip(n - 4)[2] == 'u');
                assert(filename@.skip(n - 4)[3] == 'a');
            }
        }
    }
    r
}

} // verus!
