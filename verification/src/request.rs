//! The request translator: from what the frontend sends to the canonical
//! request that is handed to the router.
//!
//! Three translations are offered. The strict one serves the fetch protocol:
//! a missing method or target is an error, never a default. The relaxed ones
//! serve the one-shot calls and fall back to `GET` and `/`.

use vstd::prelude::*;
use vstd::slice::slice_to_vec;
use vstd::utf8::encode_utf8;
use crate::error::Error;
use crate::http::{
    canonical_header_name, check_method, check_uri, header_name_from_bytes, header_value_accepts,
    http_error_text, is_header_value, is_token, is_token_byte, json_error_text, json_to_vec,
    lowered, names_match, same_name, uri_accepted,
};

verus! {

/// A header as a pair of raw name and raw value.
pub type RawHeader = (Vec<u8>, Vec<u8>);

/// The body of an envelope: already decoded, or raw bytes.
pub enum IpcBody {
    Json(serde_json::Value),
    Raw(Vec<u8>),
}

/// What arrives over the IPC boundary for a one-shot call.
pub struct IpcEnvelope {
    pub headers: Vec<RawHeader>,
    pub body: IpcBody,
}

/// The request configuration that the frontend sends to open a fetch.
#[derive(Debug, Clone)]
pub struct FetchConf {
    pub uri: String,
    pub method: String,
    pub headers: Vec<(String, String)>,
    pub body: Option<Vec<u8>>,
}

/// A request as the router takes it. A value of this type that was made by
/// this module is well formed: see [`CanonicalRequest::well_formed`].
#[derive(Debug, Clone)]
pub struct CanonicalRequest {
    pub method: Vec<u8>,
    pub uri: Vec<u8>,
    pub headers: Vec<RawHeader>,
    pub body: Vec<u8>,
}

/// The name of the header that carries the target: `x-uri`.
pub open spec fn x_uri() -> Seq<u8> {
    seq![0x78u8, 0x2d, 0x75, 0x72, 0x69]
}

/// The name of the header that carries the method: `x-method`.
pub open spec fn x_method() -> Seq<u8> {
    seq![0x78u8, 0x2d, 0x6d, 0x65, 0x74, 0x68, 0x6f, 0x64]
}

/// The method used where the relaxed translation finds none: `GET`.
pub open spec fn default_method() -> Seq<u8> {
    seq![0x47u8, 0x45, 0x54]
}

/// The target used where the relaxed translation finds none: `/`.
pub open spec fn default_uri() -> Seq<u8> {
    seq![0x2fu8]
}

/// The header that a JSON call carries: `content-type: application/json`.
pub open spec fn json_content_type() -> (Seq<u8>, Seq<u8>) {
    (
        seq![0x63u8, 0x6f, 0x6e, 0x74, 0x65, 0x6e, 0x74, 0x2d, 0x74, 0x79, 0x70, 0x65],
        seq![
            0x61u8,
            0x70,
            0x70,
            0x6c,
            0x69,
            0x63,
            0x61,
            0x74,
            0x69,
            0x6f,
            0x6e,
            0x2f,
            0x6a,
            0x73,
            0x6f,
            0x6e,
        ],
    )
}

/// The headers of `v` as pairs of byte sequences.
pub open spec fn raw_headers(v: Seq<RawHeader>) -> Seq<(Seq<u8>, Seq<u8>)> {
    Seq::new(v.len(), |i: int| (v[i].0@, v[i].1@))
}

/// The headers of `v`, given as texts, as pairs of the texts' bytes.
pub open spec fn text_headers(v: Seq<(String, String)>) -> Seq<(Seq<u8>, Seq<u8>)> {
    Seq::new(v.len(), |i: int| (encode_utf8(v[i].0@), encode_utf8(v[i].1@)))
}

/// The value of the first header among `headers[from..]` whose name is `name`
/// but for the case of letters.
pub open spec fn first_value_from(
    headers: Seq<(Seq<u8>, Seq<u8>)>,
    name: Seq<u8>,
    from: int,
) -> Option<Seq<u8>>
    decreases headers.len() - from,
{
    if from < 0 || from >= headers.len() {
        None
    } else if same_name(headers[from].0, name) {
        Some(headers[from].1)
    } else {
        first_value_from(headers, name, from + 1)
    }
}

/// The value of the first header called `name`, names compared without
/// regard to the case of letters.
pub open spec fn first_value(headers: Seq<(Seq<u8>, Seq<u8>)>, name: Seq<u8>) -> Option<Seq<u8>> {
    first_value_from(headers, name, 0)
}

/// What a header becomes on its way into a request: its name in small
/// letters beside its value, or nothing if name or value is not acceptable.
pub open spec fn kept_header(header: (Seq<u8>, Seq<u8>)) -> Option<(Seq<u8>, Seq<u8>)> {
    match canonical_header_name(header.0) {
        Some(name) => if is_header_value(header.1) {
            Some((name, header.1))
        } else {
            None
        },
        None => None,
    }
}

/// The headers of a request made from `headers`: the acceptable ones, in
/// their order, each under its canonical name.
pub open spec fn kept_headers(headers: Seq<(Seq<u8>, Seq<u8>)>) -> Seq<(Seq<u8>, Seq<u8>)>
    decreases headers.len(),
{
    if headers.len() == 0 {
        Seq::empty()
    } else {
        let init = kept_headers(headers.drop_last());
        match kept_header(headers.last()) {
            Some(kept) => init.push(kept),
            None => init,
        }
    }
}

/// `value` if it is there and `accepted`, `fallback` otherwise.
pub open spec fn value_or(value: Option<Seq<u8>>, accepted: bool, fallback: Seq<u8>) -> Seq<u8> {
    match value {
        Some(v) => if accepted {
            v
        } else {
            fallback
        },
        None => fallback,
    }
}

impl CanonicalRequest {
    /// Whether this request holds exactly these parts.
    pub open spec fn carries(
        &self,
        method: Seq<u8>,
        uri: Seq<u8>,
        headers: Seq<(Seq<u8>, Seq<u8>)>,
        body: Seq<u8>,
    ) -> bool {
        &&& self.method@ == method
        &&& self.uri@ == uri
        &&& raw_headers(self.headers@) == headers
        &&& self.body@ == body
    }

    /// The method is a token, the target is accepted, and every header has a
    /// canonical name and an acceptable value.
    pub open spec fn well_formed(&self) -> bool {
        &&& is_token(self.method@)
        &&& uri_accepted(self.uri@)
        &&& forall|i: int|
            0 <= i < self.headers@.len() ==> kept_header(#[trigger] raw_headers(self.headers@)[i])
                == Some(raw_headers(self.headers@)[i])
    }
}

/// Small letters stay as they are.
pub proof fn lemma_lowered_is_idempotent(s: Seq<u8>)
    ensures
        lowered(lowered(s)) == lowered(s),
{
    assert(lowered(lowered(s)) =~= lowered(s));
}

/// A canonical name is canonical: the name under which a header is stored is
/// stored under itself.
pub proof fn lemma_canonical_name_is_canonical(src: Seq<u8>)
    requires
        canonical_header_name(src) is Some,
    ensures
        canonical_header_name(canonical_header_name(src)->0) == canonical_header_name(src),
{
    let name = lowered(src);
    assert forall|i: int| 0 <= i < name.len() implies is_token_byte(#[trigger] name[i]) by {
        assert(is_token_byte(src[i]));
    }
    lemma_lowered_is_idempotent(src);
}

/// Every header that `kept_headers` lets through is one that it would let
/// through again unchanged.
pub proof fn lemma_kept_headers_are_kept(headers: Seq<(Seq<u8>, Seq<u8>)>, i: int)
    requires
        0 <= i < kept_headers(headers).len(),
    ensures
        kept_header(kept_headers(headers)[i]) == Some(kept_headers(headers)[i]),
    decreases headers.len(),
{
    if headers.len() > 0 {
        let init = kept_headers(headers.drop_last());
        match kept_header(headers.last()) {
            Some(kept) => {
                if i < init.len() {
                    lemma_kept_headers_are_kept(headers.drop_last(), i);
                } else {
                    lemma_canonical_name_is_canonical(headers.last().0);
                }
            },
            None => {
                lemma_kept_headers_are_kept(headers.drop_last(), i);
            },
        }
    }
}

/// The bytes of `x-uri`.
pub fn x_uri_name() -> (name: Vec<u8>)
    ensures
        name@ == x_uri(),
{
    let name = vec![0x78u8, 0x2d, 0x75, 0x72, 0x69];
    assert(name@ =~= x_uri());
    name
}

/// The bytes of `x-method`.
pub fn x_method_name() -> (name: Vec<u8>)
    ensures
        name@ == x_method(),
{
    let name = vec![0x78u8, 0x2d, 0x6d, 0x65, 0x74, 0x68, 0x6f, 0x64];
    assert(name@ =~= x_method());
    name
}

fn get_method() -> (method: Vec<u8>)
    ensures
        method@ == default_method(),
{
    let method = vec![0x47u8, 0x45, 0x54];
    assert(method@ =~= default_method());
    method
}

fn root_uri() -> (uri: Vec<u8>)
    ensures
        uri@ == default_uri(),
{
    let uri = vec![0x2fu8];
    assert(uri@ =~= default_uri());
    uri
}

fn json_header() -> (header: RawHeader)
    ensures
        (header.0@, header.1@) == json_content_type(),
{
    let name = vec![0x63u8, 0x6f, 0x6e, 0x74, 0x65, 0x6e, 0x74, 0x2d, 0x74, 0x79, 0x70, 0x65];
    let value = vec![
        0x61u8,
        0x70,
        0x70,
        0x6c,
        0x69,
        0x63,
        0x61,
        0x74,
        0x69,
        0x6f,
        0x6e,
        0x2f,
        0x6a,
        0x73,
        0x6f,
        0x6e,
    ];
    assert(name@ =~= json_content_type().0);
    assert(value@ =~= json_content_type().1);
    (name, value)
}

/// Looks up the first header called `name`, names compared without regard to
/// the case of letters, and returns a copy of its value.
pub fn find_header(headers: &Vec<RawHeader>, name: &[u8]) -> (value: Option<Vec<u8>>)
    ensures
        match first_value(raw_headers(headers@), name@) {
            Some(v) => value is Some && value->0@ == v,
            None => value is None,
        },
{
    let ghost all = raw_headers(headers@);
    let mut i: usize = 0;
    while i < headers.len()
        invariant
            i <= headers.len(),
            all == raw_headers(headers@),
            first_value(all, name@) == first_value_from(all, name@, i as int),
        decreases headers.len() - i,
    {
        if names_match(headers[i].0.as_slice(), name) {
            return Some(slice_to_vec(headers[i].1.as_slice()));
        }
        i += 1;
    }
    None
}

/// Filters and canonicalises headers for a request: keeps those whose name is
/// a token and whose value is acceptable, in their order, names in small letters.
pub fn canonical_headers(headers: &Vec<RawHeader>) -> (kept: Vec<RawHeader>)
    ensures
        raw_headers(kept@) == kept_headers(raw_headers(headers@)),
{
    let ghost all = raw_headers(headers@);
    let mut kept: Vec<RawHeader> = Vec::new();
    let mut i: usize = 0;
    assert(all.take(0) =~= Seq::<(Seq<u8>, Seq<u8>)>::empty());
    assert(raw_headers(kept@) =~= kept_headers(all.take(0)));
    while i < headers.len()
        invariant
            i <= headers.len(),
            all == raw_headers(headers@),
            raw_headers(kept@) == kept_headers(all.take(i as int)),
        decreases headers.len() - i,
    {
        let ghost before = raw_headers(kept@);
        assert(all.take(i + 1).drop_last() =~= all.take(i as int));
        assert(all.take(i + 1).last() == all[i as int]);
        match header_name_from_bytes(headers[i].0.as_slice()) {
            Some(name) => {
                if header_value_accepts(headers[i].1.as_slice()) {
                    let value = slice_to_vec(headers[i].1.as_slice());
                    kept.push((name, value));
                    assert(raw_headers(kept@) =~= before.push((name@, value@)));
                }
            },
            None => {},
        }
        i += 1;
    }
    assert(all.take(headers.len() as int) =~= all);
    kept
}

/// Turns headers given as texts into headers given as bytes.
pub fn headers_as_bytes(headers: &Vec<(String, String)>) -> (raw: Vec<RawHeader>)
    ensures
        raw_headers(raw@) == text_headers(headers@),
{
    let mut raw: Vec<RawHeader> = Vec::new();
    let mut i: usize = 0;
    while i < headers.len()
        invariant
            i <= headers.len(),
            raw@.len() == i,
            forall|j: int|
                0 <= j < i ==> (#[trigger] raw@[j]).0@ == encode_utf8(headers@[j].0@) && raw@[j].1@
                    == encode_utf8(headers@[j].1@),
        decreases headers.len() - i,
    {
        let name = slice_to_vec(headers[i].0.as_str().as_bytes());
        let value = slice_to_vec(headers[i].1.as_str().as_bytes());
        raw.push((name, value));
        i += 1;
    }
    assert(raw_headers(raw@) =~= text_headers(headers@));
    raw
}

/// Puts a request together from its parts and checks them: the target first,
/// then the method. The headers are filtered as `canonical_headers` says.
pub fn build_request(method: Vec<u8>, uri: Vec<u8>, headers: &Vec<RawHeader>, body: Vec<u8>) -> (r:
    Result<CanonicalRequest, Error>)
    ensures
        r is Ok <==> uri_accepted(uri@) && is_token(method@),
        r matches Ok(req) ==> req.well_formed() && req.carries(
            method@,
            uri@,
            kept_headers(raw_headers(headers@)),
            body@,
        ),
        r matches Err(e) ==> e is Http,
        uri@ == default_uri() ==> uri_accepted(uri@),
{
    match check_uri(uri.as_slice()) {
        Ok(_) => {},
        Err(e) => {
            return Err(Error::Http(http_error_text(&e)));
        },
    }
    match check_method(method.as_slice()) {
        Ok(_) => {},
        Err(e) => {
            return Err(Error::Http(http_error_text(&e)));
        },
    }
    let kept = canonical_headers(headers);
    let req = CanonicalRequest { method, uri, headers: kept, body };
    proof {
        assert forall|i: int| 0 <= i < req.headers@.len() implies kept_header(
            #[trigger] raw_headers(req.headers@)[i],
        ) == Some(raw_headers(req.headers@)[i]) by {
            lemma_kept_headers_are_kept(raw_headers(headers@), i);
        }
    }
    Ok(req)
}

/// `GET` is a token.
pub proof fn lemma_default_method_is_token()
    ensures
        is_token(default_method()),
{
}

/// The content-type header of a JSON call passes the header filter unchanged.
pub proof fn lemma_json_header_is_kept()
    ensures
        kept_headers(seq![json_content_type()]) == seq![json_content_type()],
{
    let h = json_content_type();
    assert(lowered(h.0) =~= h.0);
    let one = seq![h];
    assert(one.drop_last() =~= Seq::<(Seq<u8>, Seq<u8>)>::empty());
    reveal_with_fuel(kept_headers, 2);
    assert(kept_headers(one) =~= seq![h]);
}

/// The strict translation, for the fetch protocol. The target is taken from
/// the header `x-uri` and the method from `x-method`; an envelope without
/// the first fails with `Uri`, one without the second with `Method`. A
/// structured body is encoded as JSON, and fails with `Serde` if the encoder
/// refuses it; raw bytes pass unchanged. A target or method that is there
/// but malformed fails with `Http`.
pub fn translate(envelope: IpcEnvelope) -> (r: Result<CanonicalRequest, Error>)
    ensures
        first_value(raw_headers(envelope.headers@), x_uri()) is None ==> r == Err::<
            CanonicalRequest,
            Error,
        >(Error::Uri),
        first_value(raw_headers(envelope.headers@), x_uri()) is Some && first_value(
            raw_headers(envelope.headers@),
            x_method(),
        ) is None ==> r == Err::<CanonicalRequest, Error>(Error::Method),
        match (
            first_value(raw_headers(envelope.headers@), x_uri()),
            first_value(raw_headers(envelope.headers@), x_method()),
        ) {
            (Some(uri), Some(method)) => {
                &&& r matches Ok(req) ==> {
                    &&& uri_accepted(uri) && is_token(method)
                    &&& req.well_formed()
                    &&& req.method@ == method
                    &&& req.uri@ == uri
                    &&& raw_headers(req.headers@) == kept_headers(raw_headers(envelope.headers@))
                    &&& envelope.body matches IpcBody::Raw(bytes) ==> req.body@ == bytes@
                }
                &&& r matches Err(e) ==> (e is Serde && envelope.body is Json) || (e is Http && !(
                uri_accepted(uri) && is_token(method)))
                &&& envelope.body is Raw ==> (r is Ok <==> uri_accepted(uri) && is_token(method))
            },
            _ => true,
        },
{
    let uri_name = x_uri_name();
    let uri = match find_header(&envelope.headers, uri_name.as_slice()) {
        Some(uri) => uri,
        None => {
            return Err(Error::Uri);
        },
    };
    let method_name = x_method_name();
    let method = match find_header(&envelope.headers, method_name.as_slice()) {
        Some(method) => method,
        None => {
            return Err(Error::Method);
        },
    };
    let body = match envelope.body {
        IpcBody::Json(value) => match json_to_vec(&value) {
            Ok(bytes) => bytes,
            Err(e) => {
                return Err(Error::Serde(json_error_text(&e)));
            },
        },
        IpcBody::Raw(bytes) => bytes,
    };
    build_request(method, uri, &envelope.headers, body)
}

/// The strict translation of a fetch configuration. An empty target fails
/// with `Uri`, an empty method with `Method`; one that is there but malformed
/// fails with `Http`. Headers are filtered as `canonical_headers` says, and a
/// configuration without a body gives the empty body.
pub fn request_from_conf(conf: FetchConf) -> (r: Result<CanonicalRequest, Error>)
    ensures
        encode_utf8(conf.uri@).len() == 0 ==> r == Err::<CanonicalRequest, Error>(Error::Uri),
        encode_utf8(conf.uri@).len() > 0 && encode_utf8(conf.method@).len() == 0 ==> r == Err::<
            CanonicalRequest,
            Error,
        >(Error::Method),
        encode_utf8(conf.uri@).len() > 0 && encode_utf8(conf.method@).len() > 0 ==> {
            &&& r is Ok <==> uri_accepted(encode_utf8(conf.uri@)) && is_token(
                encode_utf8(conf.method@),
            )
            &&& r matches Err(e) ==> e is Http
        },
        r matches Ok(req) ==> req.well_formed() && req.carries(
            encode_utf8(conf.method@),
            encode_utf8(conf.uri@),
            kept_headers(text_headers(conf.headers@)),
            match conf.body {
                Some(bytes) => bytes@,
                None => Seq::empty(),
            },
        ),
{
    let uri = slice_to_vec(conf.uri.as_str().as_bytes());
    if uri.len() == 0 {
        return Err(Error::Uri);
    }
    let method = slice_to_vec(conf.method.as_str().as_bytes());
    if method.len() == 0 {
        return Err(Error::Method);
    }
    let headers = headers_as_bytes(&conf.headers);
    let body = match conf.body {
        Some(bytes) => bytes,
        None => Vec::new(),
    };
    build_request(method, uri, &headers, body)
}

/// Picks the target of a relaxed translation: the header's value if it is
/// there and accepted, `/` otherwise.
pub fn uri_or_default(value: Option<Vec<u8>>) -> (uri: Vec<u8>)
    ensures
        uri@ == value_or(
            match value {
                Some(v) => Some(v@),
                None => None,
            },
            value matches Some(v) && uri_accepted(v@),
            default_uri(),
        ),
{
    match value {
        Some(v) => match check_uri(v.as_slice()) {
            Ok(_) => v,
            Err(_) => root_uri(),
        },
        None => root_uri(),
    }
}

/// Picks the method of a relaxed translation: the header's value if it is
/// there and a token, `GET` otherwise.
pub fn method_or_default(value: Option<Vec<u8>>) -> (method: Vec<u8>)
    ensures
        method@ == value_or(
            match value {
                Some(v) => Some(v@),
                None => None,
            },
            value matches Some(v) && is_token(v@),
            default_method(),
        ),
        is_token(method@),
{
    proof {
        lemma_default_method_is_token();
    }
    match value {
        Some(v) => match check_method(v.as_slice()) {
            Ok(_) => v,
            Err(_) => get_method(),
        },
        None => get_method(),
    }
}

/// The target that the relaxed translations take from `headers`.
pub open spec fn relaxed_uri(headers: Seq<(Seq<u8>, Seq<u8>)>) -> Seq<u8> {
    let value = first_value(headers, x_uri());
    value_or(value, value matches Some(v) && uri_accepted(v), default_uri())
}

/// The method that the relaxed translations take from `headers`.
pub open spec fn relaxed_method(headers: Seq<(Seq<u8>, Seq<u8>)>) -> Seq<u8> {
    let value = first_value(headers, x_method());
    value_or(value, value matches Some(v) && is_token(v), default_method())
}

/// The relaxed translation, for the buffered one-shot call. Target and
/// method come from `x-uri` and `x-method` where these are there and well
/// formed, and are `/` and `GET` otherwise. The body is handled as in
/// [`translate`], so the only failure is `Serde`, on a structured body.
pub fn translate_one_shot(envelope: IpcEnvelope) -> (r: Result<CanonicalRequest, Error>)
    ensures
        r matches Ok(req) ==> {
            &&& req.well_formed()
            &&& req.method@ == relaxed_method(raw_headers(envelope.headers@))
            &&& req.uri@ == relaxed_uri(raw_headers(envelope.headers@))
            &&& raw_headers(req.headers@) == kept_headers(raw_headers(envelope.headers@))
            &&& envelope.body matches IpcBody::Raw(bytes) ==> req.body@ == bytes@
        },
        r matches Err(e) ==> e is Serde && envelope.body is Json,
        envelope.body is Raw ==> r is Ok,
{
    let uri_name = x_uri_name();
    let uri = uri_or_default(find_header(&envelope.headers, uri_name.as_slice()));
    let method_name = x_method_name();
    let method = method_or_default(find_header(&envelope.headers, method_name.as_slice()));
    let body = match envelope.body {
        IpcBody::Json(value) => match json_to_vec(&value) {
            Ok(bytes) => bytes,
            Err(e) => {
                return Err(Error::Serde(json_error_text(&e)));
            },
        },
        IpcBody::Raw(bytes) => bytes,
    };
    build_request(method, uri, &envelope.headers, body)
}

/// The relaxed translation for the JSON-only one-shot call. The body must be
/// raw bytes, which pass unchanged; a structured body fails with `Canceled`.
/// The request carries one header, `content-type: application/json`, and
/// target and method as in [`translate_one_shot`].
pub fn translate_json(envelope: IpcEnvelope) -> (r: Result<CanonicalRequest, Error>)
    ensures
        envelope.body is Json ==> r == Err::<CanonicalRequest, Error>(Error::Canceled),
        match envelope.body {
            IpcBody::Raw(bytes) => r matches Ok(req) && req.well_formed() && req.carries(
                relaxed_method(raw_headers(envelope.headers@)),
                relaxed_uri(raw_headers(envelope.headers@)),
                seq![json_content_type()],
                bytes@,
            ),
            IpcBody::Json(_) => true,
        },
{
    let body = match envelope.body {
        IpcBody::Raw(bytes) => bytes,
        IpcBody::Json(_) => {
            return Err(Error::Canceled);
        },
    };
    let uri_name = x_uri_name();
    let uri = uri_or_default(find_header(&envelope.headers, uri_name.as_slice()));
    let method_name = x_method_name();
    let method = method_or_default(find_header(&envelope.headers, method_name.as_slice()));
    let mut headers: Vec<RawHeader> = Vec::new();
    headers.push(json_header());
    proof {
        assert(raw_headers(headers@) =~= seq![json_content_type()]);
        lemma_json_header_is_kept();
    }
    build_request(method, uri, &headers, body)
}

} // verus!
