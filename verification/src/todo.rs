//! The todo record and its mathematical view.

use vstd::prelude::*;
use crate::bytes::copy_bytes;

verus! {

/// Mathematical view of one todo record: its id and title as byte
/// sequences (UTF-8 text) and its completion flag.
#[verifier::ext_equal]
pub ghost struct TodoView {
    pub id: Seq<u8>,
    pub title: Seq<u8>,
    pub completed: bool,
}

/// One todo record. The id is assigned by the store at creation and the
/// title is the client-supplied text; both are UTF-8 bytes. `completed`
/// is false at creation and nothing mutates it.
pub struct Todo {
    pub id: Vec<u8>,
    pub title: Vec<u8>,
    pub completed: bool,
}

impl View for Todo {
    type V = TodoView;

    open spec fn view(&self) -> TodoView {
        TodoView { id: self.id@, title: self.title@, completed: self.completed }
    }
}

impl DeepView for Todo {
    type V = TodoView;

    open spec fn deep_view(&self) -> TodoView {
        self@
    }
}

impl Clone for Todo {
    fn clone(&self) -> (r: Self)
        ensures
            r@ == self@,
    {
        Todo {
            id: copy_bytes(self.id.as_slice()),
            title: copy_bytes(self.title.as_slice()),
            completed: self.completed,
        }
    }
}

} // verus!
