//! The description of one HTTP exchange, and the sorting of its outcome.
//!
//! An operation builds an [`HttpRequest`] naming the verb, the URL and the
//! optional JSON body; the surrounding application performs the exchange and
//! hands the status and body back to [`interpret_status`].

use vstd::prelude::*;

verus! {

/// The HTTP verb of one exchange.
#[derive(Clone, Copy, Debug, PartialEq, Eq, Structural)]
pub enum Method {
    Get,
    Put,
    Post,
    Delete,
}

/// One exchange to perform: a verb, a URL, and an optional JSON body.
#[derive(Clone, Debug, PartialEq)]
pub struct HttpRequest {
    pub method: Method,
    pub url: String,
    pub body: Option<String>,
}

/// Why an operation failed.
#[derive(Clone, Debug, PartialEq)]
pub enum ClientError {
    /// The exchange completed with a status outside the success range; the
    /// code and the response body are carried verbatim.
    Status { code: u16, body: String },
    /// The exchange could not be completed at all.
    Transport { message: String },
    /// A payload could not be read in the expected shape.
    Decode { message: String },
}

/// Sort a completed exchange by its HTTP status: a status in the success
/// range is success and carries nothing, any other status is an error
/// carrying that code and the response body verbatim.
pub fn interpret_status(code: u16, body: String) -> (r: Result<(), ClientError>)
    ensures
        r is Ok <==> 200 <= code < 300,
        !(200 <= code < 300) ==> r == Err::<(), ClientError>(
            (ClientError::Status { code: code, body: body }),
        ),
{
    if 200 <= code && code < 300 {
        Ok(())
    } else {
        Err(ClientError::Status { code, body })
    }
}

} // verus!
