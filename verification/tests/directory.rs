use searcher::http::{FsError, Header, Transport, WebRequest, WebResponse};
use searcher::web_directory::WebDirectory;

/// An in-memory transport double: serves named resources the way an HTTP
/// host with range-request support would.
struct StubTransport {
    resources: Vec<(String, Vec<u8>)>,
    send_length_header: bool,
}

impl StubTransport {
    fn new(resources: Vec<(String, Vec<u8>)>) -> StubTransport {
        StubTransport { resources, send_length_header: true }
    }

    fn content(&self, url: &str) -> Option<&Vec<u8>> {
        self.resources.iter().find(|(u, _)| u == url).map(|(_, c)| c)
    }
}

impl Transport for StubTransport {
    fn request(&self, req: &WebRequest) -> Result<WebResponse, FsError> {
        let content = match self.content(&req.url) {
            Some(c) => c,
            None => return Err(FsError::TransportFailure),
        };
        if req.method == "HEAD" {
            let mut headers = Vec::new();
            if self.send_length_header {
                headers.push(Header::new("content-length", &content.len().to_string()));
            }
            return Ok(WebResponse { data: Vec::new(), headers });
        }
        if req.method != "GET" {
            return Err(FsError::TransportFailure);
        }
        let range = req.headers.iter().find(|h| h.name == "Range").map(|h| {
            let spec = h.value.strip_prefix("bytes=").expect("range unit");
            let (s, t) = spec.split_once('-').expect("range shape");
            let s: usize = s.parse().expect("range start");
            let t: usize = t.parse().expect("range end");
            (s, t)
        });
        match range {
            None => Ok(WebResponse { data: content.clone(), headers: Vec::new() }),
            Some((s, t)) => {
                if s > t || t >= content.len() {
                    return Err(FsError::TransportFailure);
                }
                Ok(WebResponse { data: content[s..=t].to_vec(), headers: Vec::new() })
            },
        }
    }
}

fn stub_with(name: &str, content: Vec<u8>) -> WebDirectory<StubTransport> {
    let transport = StubTransport::new(vec![(format!("http://host/{}", name), content)]);
    WebDirectory::open("http://host/", transport)
}

fn thousand_bytes() -> Vec<u8> {
    (0..1000u32).map(|i| (i % 251) as u8).collect()
}

#[test]
fn read_bytes_returns_the_exact_slice() {
    let dir = stub_with("idx.term", thousand_bytes());
    let file = dir.get_network_file_handle("idx.term");
    let got = file.read_bytes(100, 200).expect("range read");
    assert_eq!(got.len(), 100);
    assert_eq!(got, thousand_bytes()[100..200].to_vec());
}

#[test]
fn read_bytes_handles_edge_ranges() {
    let content = thousand_bytes();
    let dir = stub_with("idx.term", content.clone());
    let file = dir.get_network_file_handle("idx.term");
    assert_eq!(file.read_bytes(0, 1000).expect("whole range"), content);
    assert_eq!(file.read_bytes(0, 1).expect("first byte"), content[0..1].to_vec());
    assert_eq!(file.read_bytes(999, 1000).expect("last byte"), content[999..1000].to_vec());
    assert_eq!(file.read_bytes(500, 500).expect("empty range"), Vec::<u8>::new());
}

#[test]
fn length_reads_the_size_header() {
    let dir = stub_with("idx.term", thousand_bytes());
    let file = dir.get_network_file_handle("idx.term");
    assert_eq!(file.internal_length().expect("probe"), 1000);
    assert_eq!(file.len().expect("probe"), 1000);
}

#[test]
fn length_without_size_header_is_missing_metadata() {
    let mut transport =
        StubTransport::new(vec![("http://host/idx.term".to_string(), thousand_bytes())]);
    transport.send_length_header = false;
    let dir = WebDirectory::open("http://host/", transport);
    let file = dir.get_network_file_handle("idx.term");
    assert_eq!(file.internal_length(), Err(FsError::MissingMetadata));
}

#[test]
fn exists_is_positive_length() {
    let dir = stub_with("meta.json", vec![1, 2, 3]);
    assert!(dir.file_exists("meta.json").expect("probe"));
    let empty = stub_with("meta.json", Vec::new());
    assert!(!empty.file_exists("meta.json").expect("probe"));
}

#[test]
fn atomic_read_returns_the_whole_body() {
    let dir = stub_with("meta.json", vec![9, 8, 7, 6]);
    assert_eq!(dir.atomic_read("meta.json").expect("whole read"), vec![9, 8, 7, 6]);
}

#[test]
fn failed_transport_surfaces_as_error() {
    let dir = stub_with("present", vec![1]);
    assert!(dir.atomic_read("absent").is_err());
    assert!(dir.file_exists("absent").is_err());
}

/// A transport that answers every ranged read with a short body.
struct ShortBodyTransport;

impl Transport for ShortBodyTransport {
    fn request(&self, _req: &WebRequest) -> Result<WebResponse, FsError> {
        Ok(WebResponse { data: vec![1, 2, 3], headers: Vec::new() })
    }
}

#[test]
fn short_bodies_are_detected_as_partial_reads() {
    let dir = WebDirectory::open("http://host/", ShortBodyTransport);
    let file = dir.get_network_file_handle("idx.term");
    assert_eq!(file.read_bytes(0, 100), Err(FsError::PartialReadFailure));
}

#[test]
fn mutations_always_succeed_and_touch_nothing() {
    let dir = stub_with("idx.term", thousand_bytes());
    assert_eq!(dir.atomic_write("idx.term", &[1, 2, 3]), Ok(()));
    assert_eq!(dir.delete("idx.term"), Ok(()));
    assert_eq!(dir.sync_directory(), Ok(()));
    assert_eq!(dir.watch(), Ok(()));
    assert_eq!(dir.acquire_lock(), Ok(()));
    let mut sink = dir.open_write("idx.term").ok().expect("writer");
    assert_eq!(sink.write(&[1, 2, 3, 4]), Ok(4));
    assert_eq!(sink.flush(), Ok(()));
    // The resource is untouched by any of the above.
    let file = dir.get_network_file_handle("idx.term");
    assert_eq!(file.read_bytes(0, 4).expect("read back"), thousand_bytes()[0..4].to_vec());
    assert_eq!(file.len().expect("probe"), 1000);
}
