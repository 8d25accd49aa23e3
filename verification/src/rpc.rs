//! Errors answered to a JSON-RPC request.

use vstd::prelude::*;

verus! {

/// JSON-RPC code of a request that cannot be served as asked.
pub const INVALID_REQUEST_ERROR_CODE: i64 = -32600;

/// JSON-RPC code of a failure inside the server.
pub const INTERNAL_ERROR_CODE: i64 = -32603;

/// An error answer: its JSON-RPC code and message.
#[derive(Debug)]
pub struct RpcError {
    pub code: i64,
    pub message: String,
}

/// An answer that rejects the request itself.
pub fn invalid_request(message: String) -> (e: RpcError)
    ensures
        e.code == INVALID_REQUEST_ERROR_CODE,
        e.message@ == message@,
{
    RpcError { code: INVALID_REQUEST_ERROR_CODE, message }
}

/// An answer that reports a failure inside the server.
pub fn internal_error(message: String) -> (e: RpcError)
    ensures
        e.code == INTERNAL_ERROR_CODE,
        e.message@ == message@,
{
    RpcError { code: INTERNAL_ERROR_CODE, message }
}

/// The text that every failed bin operation's message begins with.
pub open spec fn bin_failure_prefix() -> Seq<char> {
    seq!['b', 'i', 'n', ' ', 'o', 'p', 'e', 'r', 'a', 't', 'i', 'o', 'n', ' ',
         'f', 'a', 'i', 'l', 'e', 'd', ':', ' ']
}

/// The internal error that reports a failed bin operation, given the text of
/// what failed.
pub fn trash_error(detail: &str) -> (e: RpcError)
    ensures
        e.code == INTERNAL_ERROR_CODE,
        e.message@ == bin_failure_prefix() + detail@,
{
    let mut message = String::new();
    proof { reveal_strlit("bin operation failed: "); }
    message.append("bin operation failed: ");
    message.append(detail);
    assert(message@ =~= bin_failure_prefix() + detail@);
    internal_error(message)
}

} // verus!
