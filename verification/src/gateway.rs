//! Classification of storage results and the insert confirmation body.
//!
//! The queries themselves are I/O and live outside the library; what comes
//! back — the matching rows, or the freshly inserted id — is classified and
//! shaped here.

use crate::errors::ApiError;
use crate::text::dec_digits;
use crate::text::push_decimal;
use vstd::prelude::*;

verus! {

/// One stored item: a globally unique id, an opaque URL and an opaque
/// category, both supplied by the client.
#[derive(Debug)]
pub struct Gif {
    pub id: i64,
    pub url: String,
    pub category: String,
}

/// Classifies what a category query returned. No matching row is
/// `NotFound` — an expected outcome the router turns into a 404, not a
/// transport error. Otherwise the first row is the response; the store has
/// already ordered the matches uniformly at random, so the first row is a
/// uniform pick.
pub fn fetch_outcome(rows: Vec<Gif>) -> (r: Result<Gif, ApiError>)
    ensures
        rows@.len() == 0 ==> r == Result::<Gif, ApiError>::Err(ApiError::NotFound),
        rows@.len() > 0 ==> (r matches Ok(g) && g == rows@[0]),
{
    let mut rows = rows;
    if rows.len() == 0 {
        Err(ApiError::NotFound)
    } else {
        Ok(rows.remove(0))
    }
}

/// The JSON confirmation body for a freshly inserted id.
pub open spec fn spec_id_json(id: int) -> Seq<u8> {
    seq![123u8, 34u8, 105u8, 100u8, 34u8, 58u8] + dec_digits(id) + seq![125u8]
}

/// Builds `{"id":<id>}` as bytes.
pub fn id_json(id: i64) -> (r: Vec<u8>)
    requires
        0 <= id,
    ensures
        r@ == spec_id_json(id as int),
{
    let mut out: Vec<u8> = Vec::new();
    out.push(123);
    out.push(34);
    out.push(105);
    out.push(100);
    out.push(34);
    out.push(58);
    proof {
        assert(out@ =~= seq![123u8, 34u8, 105u8, 100u8, 34u8, 58u8]);
    }
    push_decimal(&mut out, id as u64);
    out.push(125);
    proof {
        assert(out@ =~= spec_id_json(id as int));
    }
    out
}

} // verus!
