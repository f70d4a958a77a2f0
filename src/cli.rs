use vstd::prelude::*;

use crate::text::{chars_of, string_of};

verus! {

/// The arguments of `tail`: a build's URL, or its path on the server.
#[derive(Debug)]
pub struct TailArgs {
    pub job_url: String,
}

/// The arguments of `params`: a build's URL, or its path on the server.
#[derive(Debug)]
pub struct ParamsArgs {
    pub job_url: String,
}

/// Why a build parameter argument was refused.
#[derive(Debug, Clone, Copy, PartialEq, Eq, Structural)]
pub enum ParamError {
    /// The argument has no `=`, so it is not of the form `PARAM=VALUE`.
    MissingEquals,
}

/// Reads `PARAM=VALUE`: the name is what precedes the first `=`, the value
/// all that follows it.
pub fn parse_param(param: &str) -> (r: Result<(String, String), ParamError>)
    ensures
        match r {
            Ok((k, v)) => param@ == k@ + "="@ + v@ && !k@.contains('='),
            Err(e) => e == ParamError::MissingEquals && !param@.contains('='),
        },
{
    let c = chars_of(param);
    let mut i: usize = 0;
    while i < c.len()
        invariant
            i <= c.len(),
            c@ == param@,
            forall|j: int| 0 <= j < i ==> c@[j] != '=',
        decreases c.len() - i,
    {
        if c[i] == '=' {
            let k = string_of(&c, 0, i);
            let v = string_of(&c, i + 1, c.len());
            proof {
                reveal_strlit("=");
                assert(param@ =~= k@ + "="@ + v@);
                assert forall|j: int| 0 <= j < k@.len() implies k@[j] != '=' by {
                    assert(k@[j] == c@[j]);
                }
            }
            return Ok((k, v));
        }
        i = i + 1;
    }
    assert forall|j: int| 0 <= j < param@.len() implies param@[j] != '=' by {}
    Err(ParamError::MissingEquals)
}

} // verus!
