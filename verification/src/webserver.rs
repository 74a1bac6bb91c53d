//! What the web server answers that is not read from the cache.
use vstd::prelude::*;

use crate::text::push_text;

verus! {

/// The greeting for `name`: `Hello {name}!`.
pub fn greeting(name: &str) -> (r: String)
    ensures
        r@ == "Hello "@ + name@ + "!"@,
{
    let mut s = String::new();
    push_text(&mut s, "Hello ");
    push_text(&mut s, name);
    push_text(&mut s, "!");
    s
}

} // verus!
