use vstd::prelude::*;
use vstd::string::StringExecFns;
use crate::http::{
    check_read_body, decode_length_response, generate_length_request, generate_range_request,
    FsError, Transport, WebResponse,
};
use crate::numbers::lemma_dec_of_val;

verus! {

/// A read-only, file-system-shaped facade over remote resources reached
/// through an injected transport. It holds no mutable state: every length
/// query re-probes the transport, and nothing is cached.
pub struct WebDirectory<T: Transport> {
    pub base_url: String,
    pub transport: T,
}

/// One named remote resource under a directory's base location. Its length
/// is resolved on demand by a metadata probe; byte ranges are fetched by
/// range requests. It carries no cached state.
pub struct WebFile<'a, T: Transport> {
    pub file_url: String,
    pub transport: &'a T,
}

impl<'a, T: Transport> WebFile<'a, T> {
    /// Whether the transport's model has a resource under this url.
    pub open spec fn in_store(&self) -> bool {
        self.transport.store().contains_key(self.file_url@)
    }

    /// The canonical content of this resource in the transport's model.
    pub open spec fn content(&self) -> Seq<u8> {
        self.transport.store()[self.file_url@]
    }

    pub fn new(file_url: String, transport: &'a T) -> (f: WebFile<'a, T>)
        ensures
            f.file_url@ == file_url@,
            f.transport == transport,
    {
        WebFile { file_url, transport }
    }

    /// Fetches `[start, end)` of the resource, or the whole body when no
    /// range is given, and hands the response on unchecked.
    fn do_read_bytes(&self, range: Option<(usize, usize)>) -> (r: Result<WebResponse, FsError>)
        requires
            range matches Some((s, e)) ==> s < e,
        ensures
            r matches Ok(resp) ==> self.in_store() && {
                match range {
                    Some((s, e)) => s < e && e <= self.content().len() ==> resp@.data
                        == self.content().subrange(s as int, e as int),
                    None => resp@.data == self.content(),
                }
            },
    {
        let req = generate_range_request(self.file_url.as_str(), range);
        self.transport.request(&req)
    }

    /// Returns exactly the bytes `[start, end)` of the resource, verbatim
    /// from the response body; a body of any other length is rejected as a
    /// partial read. An empty range reads nothing and asks nothing.
    pub fn read_bytes(&self, start: usize, end: usize) -> (r: Result<Vec<u8>, FsError>)
        requires
            start <= end,
        ensures
            start == end ==> r is Ok,
            r matches Ok(v) ==> v@.len() == end - start,
            r matches Ok(v) ==> (start < end ==> self.in_store()),
            r matches Ok(v) ==> (start < end && end <= self.content().len() ==> v@
                == self.content().subrange(start as int, end as int)),
    {
        if start == end {
            return Ok(Vec::new());
        }
        let resp = match self.do_read_bytes(Some((start, end))) {
            Ok(resp) => resp,
            Err(e) => {
                return Err(e);
            },
        };
        check_read_body(resp, end - start)
    }

    /// Resolves the resource's length by a metadata probe, parsing the size
    /// header as a decimal integer; a missing or unparseable header is the
    /// recoverable `MissingMetadata`, never an abort.
    pub fn internal_length(&self) -> (r: Result<u64, FsError>)
        ensures
            r matches Ok(n) ==> self.in_store() && n == self.content().len(),
    {
        let req = generate_length_request(self.file_url.as_str());
        let resp = match self.transport.request(&req) {
            Ok(resp) => resp,
            Err(e) => {
                return Err(e);
            },
        };
        proof {
            if self.in_store() {
                lemma_dec_of_val(self.content().len());
            }
        }
        decode_length_response(&resp)
    }

    /// The resource's length, by the same probe as `internal_length`.
    pub fn len(&self) -> (r: Result<u64, FsError>)
        ensures
            r matches Ok(n) ==> self.in_store() && n == self.content().len(),
    {
        self.internal_length()
    }
}

impl<T: Transport> WebDirectory<T> {
    /// The url a file name resolves to: the base location, then the name,
    /// with no interpretation of either.
    pub open spec fn resolve(&self, name: Seq<char>) -> Seq<char> {
        self.base_url@ + name
    }

    /// Whether the transport's model has a resource under `name`.
    pub open spec fn in_store(&self, name: Seq<char>) -> bool {
        self.transport.store().contains_key(self.resolve(name))
    }

    /// The canonical content of the resource under `name`.
    pub open spec fn content(&self, name: Seq<char>) -> Seq<u8> {
        self.transport.store()[self.resolve(name)]
    }

    /// Opens a directory over `base_url`, reading through `transport`.
    /// Construction is lazy: no network call is made here, and errors, if
    /// any, surface on first read or length query.
    pub fn open(base_url: &str, transport: T) -> (d: WebDirectory<T>)
        ensures
            d.base_url@ == base_url@,
            d.transport == transport,
    {
        WebDirectory { base_url: base_url.to_owned(), transport }
    }

    /// A handle on the resource named `file_name`: always succeeds, and
    /// touches nothing until the handle is first read.
    pub fn get_network_file_handle<'a>(&'a self, file_name: &str) -> (f: WebFile<'a, T>)
        ensures
            f.file_url@ == self.resolve(file_name@),
            *f.transport == self.transport,
    {
        let url = self.base_url.clone().concat(file_name);
        WebFile::new(url, &self.transport)
    }

    /// A name exists exactly when its resource has a positive length: a
    /// zero-length resource counts as absent by definition, since the index
    /// engine probes existence only for optional files.
    pub fn file_exists(&self, file_name: &str) -> (r: Result<bool, FsError>)
        ensures
            r matches Ok(b) ==> self.in_store(file_name@) && (b <==> self.content(
                file_name@,
            ).len() > 0),
    {
        let handle = self.get_network_file_handle(file_name);
        match handle.internal_length() {
            Ok(n) => Ok(n > 0),
            Err(e) => Err(e),
        }
    }

    /// Reads a whole resource in one unranged fetch, for small whole-file
    /// reads such as index metadata.
    pub fn atomic_read(&self, file_name: &str) -> (r: Result<Vec<u8>, FsError>)
        ensures
            r matches Ok(v) ==> self.in_store(file_name@) && v@ == self.content(file_name@),
    {
        let handle = self.get_network_file_handle(file_name);
        match handle.do_read_bytes(None) {
            Ok(resp) => Ok(resp.data),
            Err(e) => Err(e),
        }
    }

    /// Accepted and ignored: this deployment is strictly a read path, so a
    /// write changes no remote resource and still reports success, keeping
    /// the wider read/write directory contract the index engine expects.
    pub fn atomic_write(&self, _file_name: &str, _data: &[u8]) -> (r: Result<(), FsError>)
        ensures
            r is Ok,
    {
        Ok(())
    }

    /// Accepted and ignored, as `atomic_write` is.
    pub fn delete(&self, _file_name: &str) -> (r: Result<(), FsError>)
        ensures
            r is Ok,
    {
        Ok(())
    }

    /// Hands out a sink that discards every byte: accepted and ignored, as
    /// `atomic_write` is.
    pub fn open_write(&self, _file_name: &str) -> (r: Result<Noop, FsError>)
        ensures
            r is Ok,
    {
        Ok(Noop {  })
    }

    /// Accepted and ignored, as `atomic_write` is.
    pub fn sync_directory(&self) -> (r: Result<(), FsError>)
        ensures
            r is Ok,
    {
        Ok(())
    }

    /// Registering a watch is accepted and ignored: the directory never
    /// changes from this process's point of view, so no callback ever fires.
    pub fn watch(&self) -> (r: Result<(), FsError>)
        ensures
            r is Ok,
    {
        Ok(())
    }

    /// Lock acquisition always succeeds without touching anything: there is
    /// no write path for a lock to guard.
    pub fn acquire_lock(&self) -> (r: Result<(), FsError>)
        ensures
            r is Ok,
    {
        Ok(())
    }
}

/// The sink behind `open_write`: accepts and discards every byte, and
/// always reports success.
pub struct Noop {}

impl Noop {
    /// Claims the whole buffer as written, touching nothing.
    pub fn write(&mut self, buf: &[u8]) -> (r: Result<usize, FsError>)
        ensures
            r matches Ok(n) && n == buf@.len(),
    {
        Ok(buf.len())
    }

    /// Nothing is buffered, so there is nothing to flush.
    pub fn flush(&mut self) -> (r: Result<(), FsError>)
        ensures
            r is Ok,
    {
        Ok(())
    }
}

} // verus!
