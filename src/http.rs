use vstd::prelude::*;

verus! {

/// Body of the liveness reply.
pub const LIVENESS_BODY: &'static str = "pong";

/// Body of the reply when a request could not reach the executor.
pub const UNDELIVERED_BODY: &'static str = "Actor communication error";

/// The statuses the front door answers with.
#[derive(PartialEq, Eq, Structural, Clone, Copy, Debug)]
pub enum Status {
    Success,
    InternalServerError,
}

/// An HTTP reply: a status and a plain-text body.
pub struct Response {
    pub status: Status,
    pub body: String,
}

/// How a completion request fared on its way through the executor.
pub enum Delivery {
    /// The executor served it: the generated text, or the generation error.
    Answered(Result<String, String>),
    /// The executor could not be reached.
    Undelivered,
}

/// The reply to a liveness probe: always a success, and the executor is not
/// consulted.
pub fn index() -> (r: Response)
    ensures
        r.status == Status::Success,
        r.body@ == LIVENESS_BODY@,
{
    Response { status: Status::Success, body: String::from_str(LIVENESS_BODY) }
}

/// The reply to a completion request: the generated text verbatim with a
/// success status, or an error text with a server-error status.
pub fn completion_response(delivery: Delivery) -> (r: Response)
    ensures
        match delivery {
            Delivery::Answered(Ok(t)) => r.status == Status::Success && r.body@ == t@,
            Delivery::Answered(Err(e)) => r.status == Status::InternalServerError && r.body@
                == e@,
            Delivery::Undelivered => r.status == Status::InternalServerError && r.body@
                == UNDELIVERED_BODY@,
        },
{
    match delivery {
        Delivery::Answered(Ok(t)) => Response { status: Status::Success, body: t },
        Delivery::Answered(Err(e)) => Response { status: Status::InternalServerError, body: e },
        Delivery::Undelivered => Response {
            status: Status::InternalServerError,
            body: String::from_str(UNDELIVERED_BODY),
        },
    }
}

} // verus!
