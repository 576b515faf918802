//! Operations that a handler reaches through a shared context.

use vstd::prelude::*;
use crate::common::ResponseTextWrapper;
use crate::staticserver::{is_page, page_for, DirServer, StaticError};

verus! {

/// An operation on a value that handlers share.
pub trait ContextOp<R, Args> {
    fn op(&self, args: Args) -> R;
}

impl ContextOp<Result<ResponseTextWrapper, StaticError>, Vec<String>> for DirServer {
    /// The answer of the directory server to a request for the path that
    /// is the first argument.
    fn op(&self, args: Vec<String>) -> (r: Result<ResponseTextWrapper, StaticError>)
        ensures
            args@.len() == 0 ==> r == Err::<ResponseTextWrapper, StaticError>(
                StaticError::NoPath,
            ),
            args@.len() > 0 ==> match page_for(self@, args@[0]@) {
                Some(page) => r matches Ok(text) && is_page(text@, page),
                None => r == Err::<ResponseTextWrapper, StaticError>(StaticError::NotFound),
            },
    {
        if args.len() == 0 {
            return Err(StaticError::NoPath);
        }
        self.compose(args[0].clone())
    }
}

} // verus!
