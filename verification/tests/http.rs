use searcher::http::{
    check_read_body, decode_length_response, generate_length_request, generate_range_request,
    FsError, Header, WebResponse,
};

#[test]
fn range_request_has_the_wire_shape() {
    let req = generate_range_request("http://host/idx.term", Some((100, 200)));
    assert_eq!(req.method, "GET");
    assert_eq!(req.url, "http://host/idx.term");
    assert_eq!(req.headers.len(), 1);
    assert_eq!(req.headers[0].name, "Range");
    assert_eq!(req.headers[0].value, "bytes=100-199");
}

#[test]
fn whole_read_request_has_no_range_header() {
    let req = generate_range_request("http://host/meta.json", None);
    assert_eq!(req.method, "GET");
    assert!(req.headers.is_empty());
}

#[test]
fn length_request_is_a_metadata_probe() {
    let req = generate_length_request("http://host/idx.term");
    assert_eq!(req.method, "HEAD");
    assert_eq!(req.url, "http://host/idx.term");
    assert!(req.headers.is_empty());
}

#[test]
fn length_decoding_reads_the_first_matching_header() {
    let resp = WebResponse {
        data: Vec::new(),
        headers: vec![
            Header::new("etag", "abc"),
            Header::new("content-length", "1000"),
            Header::new("content-length", "7"),
        ],
    };
    assert_eq!(decode_length_response(&resp), Ok(1000));
}

#[test]
fn length_decoding_failures_are_missing_metadata() {
    let absent = WebResponse { data: Vec::new(), headers: vec![Header::new("etag", "abc")] };
    assert_eq!(decode_length_response(&absent), Err(FsError::MissingMetadata));
    let empty = WebResponse { data: Vec::new(), headers: vec![Header::new("content-length", "")] };
    assert_eq!(decode_length_response(&empty), Err(FsError::MissingMetadata));
    let junk = WebResponse {
        data: Vec::new(),
        headers: vec![Header::new("content-length", "12kb")],
    };
    assert_eq!(decode_length_response(&junk), Err(FsError::MissingMetadata));
    let huge = WebResponse {
        data: Vec::new(),
        headers: vec![Header::new("content-length", "18446744073709551616")],
    };
    assert_eq!(decode_length_response(&huge), Err(FsError::MissingMetadata));
}

#[test]
fn short_bodies_are_partial_reads() {
    let resp = WebResponse { data: vec![1, 2, 3], headers: Vec::new() };
    assert_eq!(check_read_body(resp, 4), Err(FsError::PartialReadFailure));
    let resp = WebResponse { data: vec![1, 2, 3], headers: Vec::new() };
    assert_eq!(check_read_body(resp, 3), Ok(vec![1, 2, 3]));
}
