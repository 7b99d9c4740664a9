use vstd::prelude::*;
use vstd::string::StrSliceExecFns;
use crate::http::{
    fetch_ok, length_request_model, range_request_model, range_value_of, string_equals,
    string_equals_str, whole_request_model, FsError, Header, Transport, WebRequest, WebResponse,
};
use crate::numbers::{dec_of, lemma_dec_of_val, parse_u64, u64_to_string};

verus! {

/// The bytes `[from, to)` of `v`, as a fresh vector.
pub fn copy_range(v: &Vec<u8>, from: usize, to: usize) -> (r: Vec<u8>)
    requires
        from <= to <= v@.len(),
    ensures
        r@ == v@.subrange(from as int, to as int),
{
    let mut r: Vec<u8> = Vec::new();
    let mut i: usize = from;
    while i < to
        invariant
            from <= i <= to <= v@.len(),
            r@ == v@.subrange(from as int, i as int),
        decreases to - i,
    {
        r.push(v[i]);
        proof {
            assert(v@.subrange(from as int, i as int + 1) =~= v@.subrange(
                from as int,
                i as int,
            ).push(v@[i as int]));
        }
        i = i + 1;
    }
    proof {
        assert(r@ =~= v@.subrange(from as int, to as int));
    }
    r
}

/// Reads a `bytes=start-last` range header value back into its two numbers.
/// On a value that a ranged request for `[s, e)` would carry, it recovers
/// exactly `(s, e - 1)`; on anything else it may refuse.
fn parse_range_value(v: &str) -> (r: Option<(u64, u64)>)
    ensures
        forall|s: usize, e: usize|
            #[trigger] range_value_of(s, e) == v@ && s < e ==> r == Some((
                s as u64,
                (e - 1) as u64,
            )),
{
    let n = v.unicode_len();
    proof {
        reveal_strlit("bytes=");
        reveal_strlit("-");
    }
    if n < 9 {
        proof {
            assert forall|s: usize, e: usize| range_value_of(s, e) == v@ && s < e implies false by {
                lemma_dec_of_val(s as nat);
                lemma_dec_of_val((e - 1) as nat);
            }
        }
        return None;
    }
    let prefix_ok = v.get_char(0) == 'b' && v.get_char(1) == 'y' && v.get_char(2) == 't'
        && v.get_char(3) == 'e' && v.get_char(4) == 's' && v.get_char(5) == '=';
    if !prefix_ok {
        proof {
            assert forall|s: usize, e: usize| range_value_of(s, e) == v@ && s < e implies false by {
                lemma_dec_of_val(s as nat);
                lemma_dec_of_val((e - 1) as nat);
                assert(v@[0] == 'b' && v@[1] == 'y' && v@[2] == 't' && v@[3] == 'e' && v@[4] == 's'
                    && v@[5] == '=');
            }
        }
        return None;
    }
    let mut dash: usize = 6;
    let mut found = false;
    while dash < n && !found
        invariant
            6 <= dash <= n,
            n == v@.len(),
            found ==> dash < n && v@[dash as int] == '-',
            !found ==> forall|j: int| 6 <= j < dash ==> v@[j] != '-',
        decreases n - dash + (if found { 0int } else { 1int }),
    {
        if v.get_char(dash) == '-' {
            found = true;
        } else {
            dash = dash + 1;
        }
    }
    if !found {
        proof {
            assert forall|s: usize, e: usize| range_value_of(s, e) == v@ && s < e implies false by {
                lemma_dec_of_val(s as nat);
                lemma_dec_of_val((e - 1) as nat);
                let ls = dec_of(s as nat).len();
                assert(v@[6 + ls as int] == '-');
            }
        }
        return None;
    }
    proof {
        assert forall|s: usize, e: usize| range_value_of(s, e) == v@ && s < e implies {
            &&& dash == 6 + dec_of(s as nat).len()
            &&& v@.subrange(6, dash as int) == dec_of(s as nat)
            &&& v@.subrange(dash as int + 1, n as int) == dec_of((e - 1) as nat)
        } by {
            lemma_dec_of_val(s as nat);
            lemma_dec_of_val((e - 1) as nat);
            let ds = dec_of(s as nat);
            let de = dec_of((e - 1) as nat);
            let ls = ds.len();
            assert(v@[6 + ls as int] == '-');
            if dash < 6 + ls {
                assert(48 <= ds[dash - 6] as int <= 57);
                assert(v@[dash as int] == ds[dash - 6]);
                assert(false);
            }
            if dash > 6 + ls {
                assert(v@[6 + ls as int] != '-');
                assert(false);
            }
            assert(v@.subrange(6, dash as int) =~= ds);
            assert(v@.subrange(dash as int + 1, n as int) =~= de);
        }
    }
    let start_str = v.substring_char(6, dash);
    let end_str = v.substring_char(dash + 1, n);
    match (parse_u64(start_str), parse_u64(end_str)) {
        (Some(a), Some(b)) => {
            proof {
                assert forall|s: usize, e: usize| range_value_of(s, e) == v@ && s < e implies a == s
                    && b == e - 1 by {
                    lemma_dec_of_val(s as nat);
                    lemma_dec_of_val((e - 1) as nat);
                }
            }
            Some((a, b))
        },
        _ => {
            proof {
                assert forall|s: usize, e: usize|
                    range_value_of(s, e) == v@ && s < e implies false by {
                    lemma_dec_of_val(s as nat);
                    lemma_dec_of_val((e - 1) as nat);
                }
            }
            None
        },
    }
}

/// An in-memory transport double serving one named resource, the way an
/// honest HTTP host with range-request support would: metadata probes carry
/// the content length, whole reads return the body, ranged reads return the
/// requested slice, and anything else fails.
pub struct MemTransport {
    pub url: String,
    pub content: Vec<u8>,
}

impl MemTransport {
    pub fn new(url: String, content: Vec<u8>) -> (t: MemTransport)
        ensures
            t.url == url,
            t.content == content,
            t.store() == Map::<Seq<char>, Seq<u8>>::empty().insert(url@, content@),
    {
        MemTransport { url, content }
    }
}

impl Transport for MemTransport {
    open spec fn store(&self) -> Map<Seq<char>, Seq<u8>> {
        Map::<Seq<char>, Seq<u8>>::empty().insert(self.url@, self.content@)
    }

    fn request(&self, req: &WebRequest) -> (r: Result<WebResponse, FsError>)
        ensures
            req@ == length_request_model(self.url@) ==> r is Ok,
            req@ == whole_request_model(self.url@) ==> r is Ok,
            forall|s: usize, e: usize|
                req@ == #[trigger] range_request_model(self.url@, s, e) && s < e && e
                    <= self.content@.len() ==> r is Ok,
    {
        proof {
            reveal_strlit("GET");
            reveal_strlit("HEAD");
            reveal_strlit("Range");
            reveal_strlit("content-length");
        }
        if !string_equals(&req.url, &self.url) {
            proof {
                assert(req@.url != self.url@);
            }
            return Err(FsError::TransportFailure);
        }
        let is_head = string_equals_str(&req.method, "HEAD");
        let is_get = string_equals_str(&req.method, "GET");
        if is_head && req.headers.len() == 0 {
            let mut headers: Vec<Header> = Vec::new();
            let size = u64_to_string(self.content.len() as u64);
            headers.push(Header::new("content-length", size.as_str()));
            let resp = WebResponse { data: Vec::new(), headers };
            proof {
                assert(resp@.headers =~= seq![("content-length"@, dec_of(self.content@.len()))]);
                assert(req@ == length_request_model(req@.url)) by {
                    assert(req@.headers =~= length_request_model(req@.url).headers);
                }
                assert(("HEAD"@).len() == 4 && ("GET"@).len() == 3);
                assert(req@ != whole_request_model(req@.url));
                assert(fetch_ok(self.content@, req@, resp@));
            }
            return Ok(resp);
        }
        if is_get && req.headers.len() == 0 {
            let data = copy_range(&self.content, 0, self.content.len());
            let resp = WebResponse { data, headers: Vec::new() };
            proof {
                assert(resp@.data =~= self.content@);
                assert(req@ == whole_request_model(req@.url)) by {
                    assert(req@.headers =~= whole_request_model(req@.url).headers);
                }
                assert(("HEAD"@).len() == 4 && ("GET"@).len() == 3);
                assert(req@ != length_request_model(req@.url));
                assert(resp@.headers =~= Seq::<(Seq<char>, Seq<char>)>::empty());
                assert(fetch_ok(self.content@, req@, resp@));
            }
            return Ok(resp);
        }
        if is_get && req.headers.len() == 1 && string_equals_str(&req.headers[0].name, "Range") {
            match parse_range_value(req.headers[0].value.as_str()) {
                Some((start, last)) => {
                    if start <= last && last < self.content.len() as u64 {
                        let s = start as usize;
                        let t = last as usize;
                        let data = copy_range(&self.content, s, t + 1);
                        let resp = WebResponse { data, headers: Vec::new() };
                        proof {
                            assert forall|s2: usize, e2: usize|
                                req@ == #[trigger] range_request_model(req@.url, s2, e2) && s2 < e2
                                    && e2 <= self.content@.len() implies resp@.data
                                == self.content@.subrange(s2 as int, e2 as int) by {
                                assert(req@.headers[0] == range_request_model(
                                    req@.url,
                                    s2,
                                    e2,
                                ).headers[0]);
                                assert(req@.headers[0].1 == range_value_of(s2, e2));
                                assert(start == s2 && last == e2 - 1);
                            }
                            assert(req@ != length_request_model(req@.url));
                            assert(req@ != whole_request_model(req@.url));
                        }
                        return Ok(resp);
                    }
                    proof {
                        assert forall|s2: usize, e2: usize|
                            req@ == #[trigger] range_request_model(self.url@, s2, e2) && s2 < e2
                                && e2 <= self.content@.len() implies false by {
                            assert(req@.headers[0] == req.headers@[0]@);
                            assert(req@.headers[0].1 == range_value_of(s2, e2));
                            assert(start == s2 && last == e2 - 1);
                        }
                    }
                    Err(FsError::TransportFailure)
                },
                None => {
                    proof {
                        assert forall|s2: usize, e2: usize|
                            req@ == #[trigger] range_request_model(self.url@, s2, e2) && s2 < e2
                                && e2 <= self.content@.len() implies false by {
                            assert(req@.headers[0] == req.headers@[0]@);
                            assert(req@.headers[0].1 == range_value_of(s2, e2));
                        }
                    }
                    Err(FsError::TransportFailure)
                },
            }
        } else {
            proof {
                assert forall|s2: usize, e2: usize|
                    req@ == #[trigger] range_request_model(self.url@, s2, e2) && s2 < e2 && e2
                        <= self.content@.len() implies false by {
                    assert(req@.headers[0] == req.headers@[0]@);
                }
            }
            Err(FsError::TransportFailure)
        }
    }
}

} // verus!
