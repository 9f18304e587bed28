//! Parsing of the numeric arguments handed to the program: every string
//! becomes an `i64`, and a sentinel value marks the ones that did not parse.

use vstd::prelude::*;

verus! {

/// What `str::parse::<i64>` returns for a given character sequence.
pub uninterp spec fn parsed_i64_of(s: Seq<char>) -> Option<i64>;

/// Relies on `str::parse::<i64>`: the result is a function of the characters
/// alone.
#[verifier::external_body]
fn parse_i64(s: &str) -> (r: Option<i64>)
    ensures
        r == parsed_i64_of(s@),
{
    s.parse::<i64>().ok()
}

/// The parsed value of one argument, or the sentinel where it did not parse.
pub open spec fn parsed_or(s: Seq<char>, def: i64) -> i64 {
    match parsed_i64_of(s) {
        Some(x) => x,
        None => def,
    }
}

/// Parses every argument string into an `i64`.  An argument that does not
/// parse becomes `def`, and any occurrence of `def` in the result rejects
/// the whole vector; the caller passes a sentinel that no intended input
/// produces.
pub fn parse_vec(str_vec: &Vec<String>, def: i64) -> (r: Result<Vec<i64>, &'static str>)
    ensures
        r matches Ok(v) ==> v@.len() == str_vec@.len() && (forall|i: int|
            0 <= i < str_vec@.len() ==> v@[i] == parsed_or(#[trigger] str_vec@[i]@, def))
            && (forall|i: int|
            0 <= i < str_vec@.len() ==> parsed_or(#[trigger] str_vec@[i]@, def) != def),
        r is Err <==> exists|i: int|
            0 <= i < str_vec@.len() && parsed_or(#[trigger] str_vec@[i]@, def) == def,
        r matches Err(m) ==> m@ == "Failed to parse integer(s) from arguments"@,
{
    let n = str_vec.len();
    let mut res: Vec<i64> = Vec::new();
    let mut found_def = false;
    let mut i: usize = 0;
    while i < n
        invariant
            i <= n,
            n == str_vec@.len(),
            res@.len() == i,
            forall|j: int| 0 <= j < i ==> res@[j] == parsed_or(#[trigger] str_vec@[j]@, def),
            found_def <==> exists|j: int|
                0 <= j < i && parsed_or(#[trigger] str_vec@[j]@, def) == def,
        decreases n - i,
    {
        let x = match parse_i64(str_vec[i].as_str()) {
            Some(x) => x,
            None => def,
        };
        if x == def {
            proof {
                assert(parsed_or(str_vec@[i as int]@, def) == def);
            }
            found_def = true;
        }
        res.push(x);
        i = i + 1;
    }
    if found_def {
        Err("Failed to parse integer(s) from arguments")
    } else {
        Ok(res)
    }
}

} // verus!
