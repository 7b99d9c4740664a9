use vstd::prelude::*;
use vstd::string::StringExecFns;
use crate::numbers::{dec_of, dec_val, is_dec_digits, parse_u64, u64_to_string};

verus! {

/// Why a directory or file operation failed.
#[derive(Clone, Copy, Debug, PartialEq, Eq, Structural)]
pub enum FsError {
    /// The transport call itself failed (network or host error).
    TransportFailure,
    /// The response could not be read as the expected body-plus-headers shape.
    DecodeFailure,
    /// A length probe succeeded but the size header was absent or unparseable.
    MissingMetadata,
    /// A range request returned a body of the wrong length.
    PartialReadFailure,
}

/// One case-sensitive header name/value pair.
pub struct Header {
    pub name: String,
    pub value: String,
}

impl View for Header {
    type V = (Seq<char>, Seq<char>);

    open spec fn view(&self) -> (Seq<char>, Seq<char>) {
        (self.name@, self.value@)
    }
}

impl Header {
    pub fn new(name: &str, value: &str) -> (h: Header)
        ensures
            h@ == (name@, value@),
    {
        Header { name: name.to_owned(), value: value.to_owned() }
    }
}

/// The mathematical image of a request: method, target url, ordered headers.
#[verifier::ext_equal]
pub ghost struct RequestModel {
    pub method: Seq<char>,
    pub url: Seq<char>,
    pub headers: Seq<(Seq<char>, Seq<char>)>,
}

/// A request to the transport.
pub struct WebRequest {
    pub method: String,
    pub url: String,
    pub headers: Vec<Header>,
}

impl View for WebRequest {
    type V = RequestModel;

    open spec fn view(&self) -> RequestModel {
        RequestModel {
            method: self.method@,
            url: self.url@,
            headers: self.headers@.map_values(|h: Header| h@),
        }
    }
}

/// The mathematical image of a response: raw body bytes and ordered headers.
#[verifier::ext_equal]
pub ghost struct ResponseModel {
    pub data: Seq<u8>,
    pub headers: Seq<(Seq<char>, Seq<char>)>,
}

/// A response from the transport.
pub struct WebResponse {
    pub data: Vec<u8>,
    pub headers: Vec<Header>,
}

impl View for WebResponse {
    type V = ResponseModel;

    open spec fn view(&self) -> ResponseModel {
        ResponseModel { data: self.data@, headers: self.headers@.map_values(|h: Header| h@) }
    }
}

/// The value of the first header carrying `name`, scanning in order.
pub open spec fn header_lookup(headers: Seq<(Seq<char>, Seq<char>)>, name: Seq<char>) -> Option<
    Seq<char>,
>
    decreases headers.len(),
{
    if headers.len() == 0 {
        None
    } else if headers[0].0 == name {
        Some(headers[0].1)
    } else {
        header_lookup(headers.drop_first(), name)
    }
}

/// The value of a `Range` header asking for the byte range `[s, e)`: on the
/// wire the exclusive end becomes the inclusive `bytes=s-(e-1)`.
pub open spec fn range_value_of(s: usize, e: usize) -> Seq<char>
    recommends
        s < e,
{
    "bytes="@ + dec_of(s as nat) + "-"@ + dec_of((e - 1) as nat)
}

/// The ranged GET for the byte range `[s, e)`.
pub open spec fn range_request_model(url: Seq<char>, s: usize, e: usize) -> RequestModel
    recommends
        s < e,
{
    RequestModel { method: "GET"@, url: url, headers: seq![("Range"@, range_value_of(s, e))] }
}

/// The unranged GET that reads a whole resource.
pub open spec fn whole_request_model(url: Seq<char>) -> RequestModel {
    RequestModel { method: "GET"@, url: url, headers: Seq::empty() }
}

/// The metadata probe that resolves a resource's length without a body fetch.
pub open spec fn length_request_model(url: Seq<char>) -> RequestModel {
    RequestModel { method: "HEAD"@, url: url, headers: Seq::empty() }
}

/// What an honest transport answers about a resource of content `content`:
/// a metadata probe carries the content length in the `content-length`
/// header; a whole read returns the content; a ranged read within bounds
/// returns exactly the requested slice.
pub open spec fn fetch_ok(content: Seq<u8>, req: RequestModel, resp: ResponseModel) -> bool {
    &&& (req == length_request_model(req.url) ==> header_lookup(resp.headers, "content-length"@)
        == Some(dec_of(content.len())))
    &&& (req == whole_request_model(req.url) ==> resp.data == content)
    &&& (forall|s: usize, e: usize|
        req == #[trigger] range_request_model(req.url, s, e) && s < e && e <= content.len()
            ==> resp.data == content.subrange(s as int, e as int))
}

/// The injected transport capability: a single blocking round trip per call,
/// with no retry, no timeout and no caching. The host environment supplies
/// the one real implementation; tests may substitute an in-memory double.
pub trait Transport {
    /// The model of the remote resources this transport serves: each url's
    /// canonical content. Since a successful response must speak for a
    /// resource of the store, a verified implementation that leaves it at
    /// the default empty map can never return success.
    open spec fn store(&self) -> Map<Seq<char>, Seq<u8>> {
        Map::empty()
    }

    /// One round trip. It may always fail, and nothing is promised of how;
    /// but a successful response must be honest about the store.
    fn request(&self, req: &WebRequest) -> (r: Result<WebResponse, FsError>)
        ensures
            r matches Ok(resp) ==> self.store().contains_key(req@.url) && fetch_ok(
                self.store()[req@.url],
                req@,
                resp@,
            ),
    ;
}

/// Builds the GET for the byte range `[s, e)` of `file_url`, or for the whole
/// resource when no range is given.
pub fn generate_range_request(file_url: &str, range: Option<(usize, usize)>) -> (r: WebRequest)
    requires
        range matches Some((s, e)) ==> s < e,
    ensures
        match range {
            Some((s, e)) => r@ == range_request_model(file_url@, s, e),
            None => r@ == whole_request_model(file_url@),
        },
{
    let mut headers: Vec<Header> = Vec::new();
    if let Some((s, e)) = range {
        let mut value = String::from_str("bytes=");
        let start_digits = u64_to_string(s as u64);
        value.append(start_digits.as_str());
        value.append("-");
        let end_digits = u64_to_string((e - 1) as u64);
        value.append(end_digits.as_str());
        headers.push(Header::new("Range", value.as_str()));
        let r = WebRequest { method: String::from_str("GET"), url: file_url.to_owned(), headers };
        proof {
            assert(r@.headers =~= range_request_model(file_url@, s, e).headers);
            assert(r@ =~~= range_request_model(file_url@, s, e));
        }
        r
    } else {
        let r = WebRequest { method: String::from_str("GET"), url: file_url.to_owned(), headers };
        proof {
            assert(r@.headers =~= whole_request_model(file_url@).headers);
            assert(r@ =~~= whole_request_model(file_url@));
        }
        r
    }
}

/// Builds the metadata probe for `file_url`.
pub fn generate_length_request(file_url: &str) -> (r: WebRequest)
    ensures
        r@ == length_request_model(file_url@),
{
    let headers: Vec<Header> = Vec::new();
    let r = WebRequest { method: String::from_str("HEAD"), url: file_url.to_owned(), headers };
    proof {
        assert(r@.headers =~= length_request_model(file_url@).headers);
        assert(r@ =~~= length_request_model(file_url@));
    }
    r
}

/// The value of the first header in `headers` carrying `name`, if any.
pub fn find_header<'a>(headers: &'a Vec<Header>, name: &str) -> (r: Option<&'a String>)
    ensures
        match r {
            Some(v) => header_lookup(headers@.map_values(|h: Header| h@), name@) == Some(v@),
            None => header_lookup(headers@.map_values(|h: Header| h@), name@) is None,
        },
{
    let ghost hs = headers@.map_values(|h: Header| h@);
    let key: String = name.to_owned();
    let mut i: usize = 0;
    proof {
        assert(hs.skip(0) =~= hs);
    }
    while i < headers.len()
        invariant
            0 <= i <= headers.len(),
            key@ == name@,
            hs == headers@.map_values(|h: Header| h@),
            hs.len() == headers@.len(),
            header_lookup(hs, name@) == header_lookup(hs.skip(i as int), name@),
        decreases headers.len() - i,
    {
        let h = &headers[i];
        proof {
            assert(hs[i as int] == headers@[i as int]@);
            assert(hs.skip(i as int)[0] == hs[i as int]);
        }
        if string_equals(&h.name, &key) {
            proof {
                assert(header_lookup(hs.skip(i as int), name@) == Some(hs[i as int].1));
            }
            return Some(&h.value);
        }
        proof {
            assert(hs.skip(i as int).drop_first() =~= hs.skip(i as int + 1));
            assert(header_lookup(hs.skip(i as int), name@) == header_lookup(
                hs.skip(i as int + 1),
                name@,
            ));
        }
        i = i + 1;
    }
    proof {
        assert(hs.skip(i as int) =~= Seq::empty());
    }
    None
}

/// Character-for-character equality of two strings.
pub(crate) fn string_equals(a: &String, b: &String) -> (r: bool)
    ensures
        r == (a@ == b@),
{
    a.eq(b)
}

/// Character-for-character equality of a string and a string slice.
pub(crate) fn string_equals_str(a: &String, b: &str) -> (r: bool)
    ensures
        r == (a@ == b@),
{
    string_equals(a, &b.to_owned())
}

/// Reads the resource size out of a metadata-probe response: the first
/// `content-length` header, parsed as a decimal integer. Fails with
/// `MissingMetadata` exactly when that header is absent, or is empty, holds
/// a non-digit, or denotes a value too large for a `u64`.
pub fn decode_length_response(resp: &WebResponse) -> (r: Result<u64, FsError>)
    ensures
        match header_lookup(resp@.headers, "content-length"@) {
            Some(v) => {
                if v.len() > 0 && is_dec_digits(v) && dec_val(v) <= u64::MAX {
                    r == Ok::<u64, FsError>(dec_val(v) as u64)
                } else {
                    r == Err::<u64, FsError>(FsError::MissingMetadata)
                }
            },
            None => r == Err::<u64, FsError>(FsError::MissingMetadata),
        },
{
    match find_header(&resp.headers, "content-length") {
        Some(value) => match parse_u64(value.as_str()) {
            Some(n) => Ok(n),
            None => Err(FsError::MissingMetadata),
        },
        None => Err(FsError::MissingMetadata),
    }
}

/// Accepts a ranged-read response only if its body holds exactly the
/// requested number of bytes; anything else is a partial read.
pub fn check_read_body(resp: WebResponse, expected: usize) -> (r: Result<Vec<u8>, FsError>)
    ensures
        if resp@.data.len() == expected {
            r matches Ok(v) && v@ == resp@.data
        } else {
            r == Err::<Vec<u8>, FsError>(FsError::PartialReadFailure)
        },
{
    if resp.data.len() == expected {
        Ok(resp.data)
    } else {
        Err(FsError::PartialReadFailure)
    }
}

} // verus!
