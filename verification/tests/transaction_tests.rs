use grpc_datastore::transaction::{
    create_vertex_request, create_vertex_result, TransactionRequest, TransactionResponse, Vertex,
};
use uuid::Uuid;

fn sample_vertex() -> Vertex {
    let id = Uuid::parse_str("FFFFFFFFFFFFFFFFFFFFFFFFFFFFFFFF").unwrap();
    Vertex { id: *id.as_bytes(), t: "test_vertex_type".to_string() }
}

#[test]
fn create_vertex_request_carries_the_vertex() {
    let v = sample_vertex();
    match create_vertex_request(&v) {
        TransactionRequest::CreateVertex(x) => {
            assert_eq!(x.id, [0xFF; 16]);
            assert_eq!(x.t, "test_vertex_type");
        }
    }
}

#[test]
fn created_vertex_reply() {
    assert!(matches!(create_vertex_result(TransactionResponse::Flag(true)), Ok(true)));
}

#[test]
fn existing_vertex_reply() {
    assert!(matches!(create_vertex_result(TransactionResponse::Flag(false)), Ok(false)));
}

#[test]
fn empty_reply_reads_as_false() {
    assert!(matches!(create_vertex_result(TransactionResponse::Empty), Ok(false)));
}

#[test]
fn error_reply_becomes_error() {
    match create_vertex_result(TransactionResponse::Error("boom".to_string())) {
        Err(e) => assert_eq!(e.description, "boom"),
        Ok(_) => panic!("an error reply must not succeed"),
    }
}
