//! Result shaping for the relational driver.

use vstd::prelude::*;

verus! {

/// The name reported for column `c`: the driver's name, or empty when it has none.
pub open spec fn column_name_spec(c: Option<String>) -> Seq<char> {
    match c {
        Some(n) => n@,
        None => Seq::empty(),
    }
}

/// The column names of a result, one per column in order; a column without
/// a name gets the empty string.
pub fn column_names(names: Vec<Option<String>>) -> (r: Vec<String>)
    ensures
        r@.len() == names@.len(),
        forall|i: int| 0 <= i < names@.len() ==> #[trigger] r@[i]@ == column_name_spec(names@[i]),
{
    let mut out: Vec<String> = Vec::new();
    let n = names.len();
    let mut i: usize = 0;
    while i < n
        invariant
            n == names@.len(),
            0 <= i <= n,
            out@.len() == i,
            forall|j: int| 0 <= j < i ==> #[trigger] out@[j]@ == column_name_spec(names@[j]),
        decreases n - i,
    {
        let name = match &names[i] {
            Some(s) => s.clone(),
            None => String::new(),
        };
        out.push(name);
        i = i + 1;
    }
    out
}

} // verus!
