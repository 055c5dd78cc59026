//! The contract the decrypted CSV payload must meet before ingestion: a
//! header row holding the `prize`, `manual_code` and `security_code`
//! columns, in any order.
use vstd::prelude::*;
use vstd::string::StringExecFns;

verus! {

/// A lottery project row as the surrounding application stores it.
pub struct Project {
    pub id: i64,
    pub name: String,
    pub description: Option<String>,
    pub created_at: String,
    pub updated_at: String,
    pub total_tickets: i64,
    pub redeemed_tickets: i64,
}

/// Whether some header equals a column name.
pub open spec fn has_header(headers: Seq<String>, name: Seq<char>) -> bool {
    exists|i: int| 0 <= i < headers.len() && headers[i]@ == name
}

/// `i` is the first header equal to `name`.
pub open spec fn is_first_header(headers: Seq<String>, name: Seq<char>, i: int) -> bool {
    &&& 0 <= i < headers.len()
    &&& headers[i]@ == name
    &&& forall|k: int| 0 <= k < i ==> headers[k]@ != name
}

fn position_of(headers: &Vec<String>, name: &str) -> (r: Option<usize>)
    ensures
        match r {
            Some(i) => is_first_header(headers@, name@, i as int),
            None => !has_header(headers@, name@),
        },
{
    let want = String::from_str(name);
    let mut i: usize = 0;
    while i < headers.len()
        invariant
            i <= headers.len(),
            want@ == name@,
            forall|k: int| 0 <= k < i ==> headers@[k]@ != name@,
        decreases headers.len() - i,
    {
        if headers[i] == want {
            return Some(i);
        }
        i = i + 1;
    }
    None
}

/// Finds the column indices of `prize`, `manual_code` and `security_code`
/// in a CSV header row: the first index of each when all three are present,
/// nothing when any is missing.
pub fn find_required_columns(headers: &Vec<String>) -> (r: Option<(usize, usize, usize)>)
    ensures
        match r {
            Some(idx) => {
                &&& is_first_header(headers@, "prize"@, idx.0 as int)
                &&& is_first_header(headers@, "manual_code"@, idx.1 as int)
                &&& is_first_header(headers@, "security_code"@, idx.2 as int)
            },
            None => !(has_header(headers@, "prize"@) && has_header(headers@, "manual_code"@)
                && has_header(headers@, "security_code"@)),
        },
{
    let prize = position_of(headers, "prize");
    let manual = position_of(headers, "manual_code");
    let security = position_of(headers, "security_code");
    match (prize, manual, security) {
        (Some(p), Some(m), Some(s)) => Some((p, m, s)),
        _ => None,
    }
}

} // verus!
