//! The messages of a transaction: the request that creates a vertex, and how
//! the server's reply to it is read.
use vstd::prelude::*;

verus! {

/// A vertex: its 16-byte UUID and the name of its type.
pub struct Vertex {
    pub id: [u8; 16],
    pub t: String,
}

/// A request sent on a transaction's stream.
pub enum TransactionRequest {
    /// Create the given vertex.
    CreateVertex(Vertex),
}

/// The reply the server sends on a transaction's stream for one request.
pub enum TransactionResponse {
    /// A success flag (for a vertex creation: whether the vertex was new).
    Flag(bool),
    /// The request failed on the server, with the server's description.
    Error(String),
    /// A reply that carries neither a flag nor an error.
    Empty,
}

/// An error that the server reported for a request.
pub struct TransactionError {
    pub description: String,
}

/// The request that asks the server to create `v`.
pub fn create_vertex_request(v: &Vertex) -> (req: TransactionRequest)
    ensures
        req matches TransactionRequest::CreateVertex(x) && x.id == v.id && x.t@ == v.t@,
{
    TransactionRequest::CreateVertex(Vertex { id: v.id, t: v.t.clone() })
}

/// What a vertex creation returns for the reply `response`: the server's
/// error if it reported one, and otherwise the reply's flag, which reads as
/// `false` when the reply carries none.
pub open spec fn spec_create_vertex_result(response: TransactionResponse) -> Result<bool, Seq<char>> {
    match response {
        TransactionResponse::Error(e) => Err(e@),
        TransactionResponse::Flag(flag) => Ok(flag),
        TransactionResponse::Empty => Ok(false),
    }
}

/// A reply is read as an error exactly when the server reported one, and
/// then with the server's own description; a flag is read as itself, and a
/// reply with neither as `false`.
pub proof fn lemma_create_vertex_reply_reading(response: TransactionResponse)
    ensures
        spec_create_vertex_result(response) is Err <==> response is Error,
        forall|d: String|
            response == TransactionResponse::Error(d) ==> spec_create_vertex_result(response)
                == Err::<bool, Seq<char>>(d@),
        forall|flag: bool|
            response == TransactionResponse::Flag(flag) ==> spec_create_vertex_result(response)
                == Ok::<bool, Seq<char>>(flag),
        response is Empty ==> spec_create_vertex_result(response) == Ok::<bool, Seq<char>>(false),
{
}

/// Reads the server's reply to a vertex creation.
pub fn create_vertex_result(response: TransactionResponse) -> (r: Result<bool, TransactionError>)
    ensures
        match (r, spec_create_vertex_result(response)) {
            (Ok(a), Ok(b)) => a == b,
            (Err(e), Err(d)) => e.description@ == d,
            _ => false,
        },
        r is Err <==> response is Error,
        forall|d: String|
            response == TransactionResponse::Error(d) ==> (r matches Err(e) && e.description@
                == d@),
        forall|flag: bool|
            response == TransactionResponse::Flag(flag) ==> (r matches Ok(b) && b == flag),
        response is Empty ==> (r matches Ok(b) && b == false),
{
    match response {
        TransactionResponse::Error(description) => Err(TransactionError { description }),
        TransactionResponse::Flag(flag) => Ok(flag),
        TransactionResponse::Empty => Ok(false),
    }
}

} // verus!
