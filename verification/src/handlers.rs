//! The compute cores of the two HTTP handlers.
//!
//! The surrounding process reads the request and writes the response; these
//! functions do everything in between. Listing renders the store's current
//! snapshot as a JSON array. Creating parses the request body, appends a
//! record exactly when the body is well formed, and renders the created
//! record; a malformed body is rejected before the store is touched, so a
//! rejected request leaves the store unchanged.

use vstd::prelude::*;
use crate::json_encode::{encode_todo, encode_todos, spec_encode_todo, spec_encode_todos};
use crate::json_parse::{parse_create, spec_parse_create};
use crate::store::{wf_todos, TodoStore};

verus! {

/// Rejection of a create request whose body does not parse as a create
/// request: the caller answers it with a client-error status.
#[derive(PartialEq, Eq, Structural, Clone, Copy, Debug)]
pub enum CreateError {
    BadRequest,
}

/// Renders the whole store as a JSON array, in insertion order.
pub fn handle_list(store: &TodoStore) -> (r: Vec<u8>)
    ensures
        r@ == spec_encode_todos(store@),
        wf_todos(store@),
{
    let items = store.list();
    encode_todos(&items)
}

/// Serves one create request: parses `body`, and on success appends a
/// record carrying the decoded title and returns that record rendered as
/// JSON. A body outside the accepted language is answered with
/// `BadRequest` and leaves the store as it was.
pub fn handle_create(store: &mut TodoStore, body: &[u8]) -> (r: Result<Vec<u8>, CreateError>)
    ensures
        spec_parse_create(body@) is None ==> r == Err::<Vec<u8>, CreateError>(
            CreateError::BadRequest,
        ) && final(store)@ == old(store)@,
        spec_parse_create(body@) is Some ==> {
            &&& r is Ok
            &&& final(store)@ == old(store)@.push(final(store)@.last())
            &&& final(store)@.len() == old(store)@.len() + 1
            &&& final(store)@.last().title == spec_parse_create(body@).unwrap()
            &&& final(store)@.last().completed == false
            &&& final(store)@.last().id.len() > 0
            &&& (forall|i: int|
                0 <= i < old(store)@.len() ==> (#[trigger] old(store)@[i]).id
                    != final(store)@.last().id)
            &&& r.unwrap()@ == spec_encode_todo(final(store)@.last())
        },
        wf_todos(final(store)@),
{
    match parse_create(body) {
        Some(title) => {
            let todo = store.append(title);
            let resp = encode_todo(&todo);
            proof {
                assert(final(store)@.last() == todo@);
            }
            Ok(resp)
        },
        None => {
            proof {
                use_type_invariant(&*store);
            }
            Err(CreateError::BadRequest)
        },
    }
}

} // verus!
