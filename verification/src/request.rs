//! Built requests: a descriptor with the values of its fields, and what goes
//! on the wire for them: the URL, the body and the headers.

use crate::attributes::FieldKind;
use crate::encode::{json_string, json_string_bytes, query_pair, query_pair_text};
use crate::error::{ErrorModel, RequestError};
use crate::headers::{map_of, HeaderMap};
use crate::meta::{copy_text};
use crate::schema::{
    field_index, find_field, FieldDescriptorModel, RequestDescriptor,
    RequestDescriptorModel,
};
use crate::template::{
    extract_path_params, path_params, placeholder, placeholder_chars, replace_all, replace_chars,
};
use crate::text::{append_chars, append_str, chars_of, string_of, texts};
use crate::transport::HttpClient;
use crate::value::{
    display_text, opt_value, slot_models, FieldValue, ValueModel,
};
use std::time::Duration;
use vstd::prelude::*;

verus! {

/// The path after its placeholders are filled, one after the other in order of
/// appearance: every occurrence of `{name}` is replaced by the text of the
/// field called `name`. A placeholder whose field holds no value ends the
/// filling with that placeholder's name as the error. A placeholder that no
/// field is named after stays as it is.
pub open spec fn expand_path(
    path: Seq<char>,
    params: Seq<Seq<char>>,
    fields: Seq<FieldDescriptorModel>,
    values: Seq<Option<ValueModel>>,
) -> Result<Seq<char>, Seq<char>>
    decreases params.len(),
{
    if params.len() == 0 {
        Ok(path)
    } else {
        let p = params[0];
        let i = field_index(fields, p);
        if i < 0 || i >= fields.len() || i >= values.len() {
            expand_path(path, params.skip(1), fields, values)
        } else {
            match values[i] {
                None => Err(p),
                Some(v) => expand_path(
                    replace_all(path, placeholder(p), display_text(v)),
                    params.skip(1),
                    fields,
                    values,
                ),
            }
        }
    }
}

/// The names and texts of the first `n` fields that travel as `kind` and hold
/// a value, in declaration order. A field without a value contributes
/// nothing.
pub open spec fn travelling(
    kind: FieldKind,
    fields: Seq<FieldDescriptorModel>,
    values: Seq<Option<ValueModel>>,
    n: nat,
) -> Seq<(Seq<char>, ValueModel)>
    decreases n,
{
    if n == 0 {
        Seq::empty()
    } else {
        let before = travelling(kind, fields, values, (n - 1) as nat);
        if n <= fields.len() && n <= values.len() && fields[n - 1].kind == kind && values[n
            - 1] is Some {
            before.push((fields[n - 1].wire_name, values[n - 1]->0))
        } else {
            before
        }
    }
}

/// The query fields that hold a value, with the names under which they
/// travel.
pub open spec fn query_fields(fields: Seq<FieldDescriptorModel>, values: Seq<Option<ValueModel>>)
    -> Seq<(Seq<char>, ValueModel)> {
    travelling(FieldKind::Query, fields, values, fields.len())
}

/// The body fields that hold a value, with the names under which they travel.
pub open spec fn body_fields(fields: Seq<FieldDescriptorModel>, values: Seq<Option<ValueModel>>)
    -> Seq<(Seq<char>, ValueModel)> {
    travelling(FieldKind::Body, fields, values, fields.len())
}

/// The header fields that hold a value, with the names under which they
/// travel.
pub open spec fn header_fields(fields: Seq<FieldDescriptorModel>, values: Seq<Option<ValueModel>>)
    -> Seq<(Seq<char>, ValueModel)> {
    travelling(FieldKind::Header, fields, values, fields.len())
}

/// Whether some field travels as `kind`, with or without a value.
pub open spec fn declares(kind: FieldKind, fields: Seq<FieldDescriptorModel>) -> bool {
    exists|i: int| 0 <= i < fields.len() && (#[trigger] fields[i]).kind == kind
}

/// The encoded pairs of a query string, in order.
pub open spec fn encoded_pairs(pairs: Seq<(Seq<char>, ValueModel)>) -> Seq<Seq<char>> {
    Seq::new(pairs.len(), |i: int| query_pair_text(pairs[i].0, display_text(pairs[i].1)))
}

/// Parts joined by `&`.
pub open spec fn joined(parts: Seq<Seq<char>>) -> Seq<char>
    decreases parts.len(),
{
    if parts.len() == 0 {
        Seq::empty()
    } else if parts.len() == 1 {
        parts[0]
    } else {
        joined(parts.drop_last()) + seq!['&'] + parts.last()
    }
}

/// A path with its query string: the path alone where the query is empty,
/// otherwise path, `?` and query.
pub open spec fn with_query(path: Seq<char>, query: Seq<char>) -> Seq<char> {
    if query.len() == 0 {
        path
    } else {
        path + seq!['?'] + query
    }
}

/// The URL of a request: its expanded path, then the query string of its
/// query fields.
pub open spec fn url_text(path: Seq<char>, pairs: Seq<(Seq<char>, ValueModel)>) -> Seq<char> {
    with_query(path, joined(encoded_pairs(pairs)))
}

/// `{` in ASCII.
pub const OPEN_BRACE: u8 = 123;

/// `}` in ASCII.
pub const CLOSE_BRACE: u8 = 125;

/// `:` in ASCII.
pub const COLON: u8 = 58;

/// `,` in ASCII.
pub const COMMA: u8 = 44;

/// `-` in ASCII.
pub const MINUS: u8 = 45;

/// `0` in ASCII; the other digits follow it.
pub const DIGIT_ZERO: u8 = 48;

/// `true` in ASCII.
pub open spec fn true_bytes() -> Seq<u8> {
    seq![116u8, 114u8, 117u8, 101u8]
}

/// `false` in ASCII.
pub open spec fn false_bytes() -> Seq<u8> {
    seq![102u8, 97u8, 108u8, 115u8, 101u8]
}

/// The decimal notation of `n` in ASCII.
pub open spec fn decimal_bytes(n: nat) -> Seq<u8>
    decreases n,
{
    if n < 10 {
        seq![(DIGIT_ZERO + n) as u8]
    } else {
        decimal_bytes(n / 10).push((DIGIT_ZERO + n % 10) as u8)
    }
}

/// The JSON notation of a value: `true` or `false`, a number in decimal
/// notation, a string literal, or the notation that an opaque value comes
/// with.
pub open spec fn json_value(v: ValueModel) -> Seq<u8> {
    match v {
        ValueModel::Bool(b) => if b {
            true_bytes()
        } else {
            false_bytes()
        },
        ValueModel::Unsigned(n) => decimal_bytes(n),
        ValueModel::Signed(n) => if n < 0 {
            seq![MINUS] + decimal_bytes((-n) as nat)
        } else {
            decimal_bytes(n as nat)
        },
        ValueModel::Text(s) => json_string_bytes(s),
        ValueModel::Opaque { text, json } => json,
    }
}

/// One member of a JSON object: the name as a string literal, a colon, the
/// value.
pub open spec fn json_member(name: Seq<char>, v: ValueModel) -> Seq<u8> {
    json_string_bytes(name) + seq![COLON] + json_value(v)
}

/// The members of a JSON object, separated by commas.
pub open spec fn json_members(pairs: Seq<(Seq<char>, ValueModel)>) -> Seq<u8>
    decreases pairs.len(),
{
    if pairs.len() == 0 {
        Seq::empty()
    } else if pairs.len() == 1 {
        json_member(pairs[0].0, pairs[0].1)
    } else {
        json_members(pairs.drop_last()) + seq![COMMA] + json_member(
            pairs.last().0,
            pairs.last().1,
        )
    }
}

/// A JSON object in compact notation: the members between braces.
pub open spec fn json_object(pairs: Seq<(Seq<char>, ValueModel)>) -> Seq<u8> {
    seq![OPEN_BRACE] + json_members(pairs) + seq![CLOSE_BRACE]
}

/// Names with the texts of their values.
pub open spec fn shown(pairs: Seq<(Seq<char>, ValueModel)>) -> Seq<(Seq<char>, Seq<char>)> {
    Seq::new(pairs.len(), |i: int| (pairs[i].0, display_text(pairs[i].1)))
}

/// The headers of a request: each header field that holds a value, under the
/// name it travels by, with the text of the value. Where two fields travel
/// under one name, the later one wins.
pub open spec fn headers_of(fields: Seq<FieldDescriptorModel>, values: Seq<Option<ValueModel>>)
    -> Map<Seq<char>, Seq<char>> {
    map_of(shown(header_fields(fields, values)))
}

/// The URL that a request sends to: the base URL, then the request's own
/// URL.
pub open spec fn full_url(base: Seq<char>, url: Seq<char>) -> Seq<char> {
    base + url
}

/// Appends the decimal notation of `n` in ASCII to `out`.
pub fn push_decimal_bytes(out: &mut Vec<u8>, n: u64)
    ensures
        final(out)@ == old(out)@ + decimal_bytes(n as nat),
    decreases n,
{
    if n >= 10 {
        push_decimal_bytes(out, n / 10);
    }
    let digit: u8 = (n % 10) as u8;
    out.push(DIGIT_ZERO + digit);
    assert(out@ == old(out)@ + decimal_bytes(n as nat));
}

/// Appends all of `src` to `out`.
pub fn append_bytes(out: &mut Vec<u8>, src: &Vec<u8>)
    ensures
        final(out)@ == old(out)@ + src@,
{
    let mut i: usize = 0;
    while i < src.len()
        invariant
            i <= src.len(),
            out@ == old(out)@ + src@.take(i as int),
        decreases src.len() - i,
    {
        out.push(src[i]);
        i += 1;
        assert(src@.take(i as int) == src@.take(i - 1).push(src@[i - 1]));
    }
    assert(src@.take(src.len() as int) == src@);
}

fn push_json_text(out: &mut Vec<u8>, s: &str) -> (r: Result<(), RequestError>)
    ensures
        r is Ok,
        final(out)@ == old(out)@ + json_string_bytes(s@),
{
    match json_string(s) {
        Ok(bytes) => {
            append_bytes(out, &bytes);
            Ok(())
        },
        Err(e) => Err(RequestError::BodySerializationError { message: e.to_string() }),
    }
}

fn push_json_value(out: &mut Vec<u8>, v: &FieldValue) -> (r: Result<(), RequestError>)
    ensures
        r is Ok,
        final(out)@ == old(out)@ + json_value(v@),
{
    match v {
        FieldValue::Bool(b) => {
            if *b {
                out.push(116u8);
                out.push(114u8);
                out.push(117u8);
                out.push(101u8);
            } else {
                out.push(102u8);
                out.push(97u8);
                out.push(108u8);
                out.push(115u8);
                out.push(101u8);
            }
            assert(out@ == old(out)@ + json_value(v@));
            Ok(())
        },
        FieldValue::Unsigned(n) => {
            push_decimal_bytes(out, *n);
            Ok(())
        },
        FieldValue::Signed(n) => {
            if *n < 0 {
                out.push(MINUS);
                let magnitude: u64 = if *n == i64::MIN {
                    9223372036854775808u64
                } else {
                    (-*n) as u64
                };
                push_decimal_bytes(out, magnitude);
                assert(out@ == old(out)@ + (seq![MINUS] + decimal_bytes((-*n) as nat)));
            } else {
                push_decimal_bytes(out, *n as u64);
            }
            Ok(())
        },
        FieldValue::Text(s) => push_json_text(out, s.as_str()),
        FieldValue::Opaque { text, json } => {
            append_bytes(out, json);
            Ok(())
        },
    }
}

/// Appends a query string to a path: nothing where no part is given or the
/// parts join to nothing; otherwise `?` and the parts, joined by `&`.
pub fn append_query(path: String, parts: &Vec<String>) -> (r: String)
    ensures
        r@ == with_query(path@, joined(texts(parts@))),
{
    let mut query: Vec<char> = Vec::new();
    let mut i: usize = 0;
    proof {
        assert(texts(parts@).take(0) =~= Seq::<Seq<char>>::empty());
    }
    while i < parts.len()
        invariant
            i <= parts.len(),
            query@ == joined(texts(parts@).take(i as int)),
        decreases parts.len() - i,
    {
        proof {
            let next = texts(parts@).take(i + 1);
            assert(next.drop_last() == texts(parts@).take(i as int));
            assert(next.last() == parts@[i as int]@);
            if i == 0 {
                assert(next[0] == parts@[0]@);
                assert(Seq::<char>::empty() + parts@[0]@ == parts@[0]@);
            }
        }
        if i > 0 {
            query.push('&');
        }
        append_str(&mut query, parts[i].as_str());
        i += 1;
    }
    proof {
        assert(texts(parts@).take(parts.len() as int) == texts(parts@));
    }
    if query.len() == 0 {
        path
    } else {
        let mut out = chars_of(path.as_str());
        out.push('?');
        append_chars(&mut out, &query);
        string_of(&out)
    }
}

/// What is handed to a transport client.
#[derive(Debug, PartialEq, Eq)]
pub struct PreparedRequest {
    /// The HTTP method.
    pub method: String,
    /// The complete URL.
    pub url: String,
    /// The headers.
    pub headers: HeaderMap,
    /// The body, where there is one.
    pub body: Option<Vec<u8>>,
    /// The timeout, where there is one.
    pub timeout: Option<Duration>,
}

/// The model of a `PreparedRequest`.
pub struct Wire {
    pub method: Seq<char>,
    pub url: Seq<char>,
    pub headers: Map<Seq<char>, Seq<char>>,
    pub body: Option<Seq<u8>>,
    pub timeout: Option<Duration>,
}

impl View for PreparedRequest {
    type V = Wire;

    open spec fn view(&self) -> Wire {
        Wire {
            method: self.method@,
            url: self.url@,
            headers: self.headers@,
            body: match self.body {
                Some(b) => Some(b@),
                None => None,
            },
            timeout: self.timeout,
        }
    }
}

/// What goes on the wire for a request that is sent to `url`: the declared
/// method; the URL; the request's headers, over which the extra headers win;
/// the JSON body where a field travels in the body; and the timeout.
pub open spec fn wire_to(
    d: RequestDescriptorModel,
    values: Seq<Option<ValueModel>>,
    url: Seq<char>,
    extra: Map<Seq<char>, Seq<char>>,
    timeout: Option<Duration>,
) -> Wire {
    Wire {
        method: d.method,
        url,
        headers: headers_of(d.fields, values).union_prefer_right(extra),
        body: if declares(FieldKind::Body, d.fields) {
            Some(json_object(body_fields(d.fields, values)))
        } else {
            None
        },
        timeout,
    }
}

/// What goes on the wire for a request whose path expanded to `path`, under
/// the default query encoding: it is sent to the base URL followed by path
/// and query string.
pub open spec fn wire_of(
    d: RequestDescriptorModel,
    values: Seq<Option<ValueModel>>,
    path: Seq<char>,
    base: Seq<char>,
    extra: Map<Seq<char>, Seq<char>>,
    timeout: Option<Duration>,
) -> Wire {
    wire_to(
        d,
        values,
        full_url(base, url_text(path, query_fields(d.fields, values))),
        extra,
        timeout,
    )
}

/// The view of an optional body.
pub open spec fn body_bytes(body: Option<Vec<u8>>) -> Option<Seq<u8>> {
    match body {
        Some(b) => Some(b@),
        None => None,
    }
}

/// What preparing a request with the given values may give.
///
/// A placeholder whose field holds no value gives a URL error with the
/// missing path parameter inside. Otherwise the result is the wire form of
/// the request.
pub open spec fn planned(
    d: RequestDescriptorModel,
    values: Seq<Option<ValueModel>>,
    base: Seq<char>,
    extra: Map<Seq<char>, Seq<char>>,
    timeout: Option<Duration>,
    r: Result<PreparedRequest, RequestError>,
) -> bool {
    match expand_path(d.path->0, path_params(d.path->0), d.fields, values) {
        Err(p) => r matches Err(e) && e@ == (ErrorModel::UrlBuildError {
            source: Box::new(ErrorModel::MissingPathParameter { param: p }),
        }),
        Ok(path) => r matches Ok(w) && w@ == wire_of(d, values, path, base, extra, timeout),
    }
}

/// The client, handed exactly `wire`, may answer with `answer`.
pub open spec fn handed<C: HttpClient>(
    client: &C,
    wire: Wire,
    answer: Result<Vec<u8>, C::Error>,
) -> bool {
    exists|method: &str, url: &str, headers: HeaderMap, body: Option<Vec<u8>>|
        method@ == wire.method && url@ == wire.url && headers@ == wire.headers && body_bytes(body)
            == wire.body && #[trigger] call_ensures(
            C::send,
            (client, method, url, headers, body, wire.timeout),
            answer,
        )
}

/// What a request answers for what its client answered: the response as it
/// is, or an HTTP error with what the client's error displays.
pub open spec fn transported<E: std::fmt::Display>(
    answer: Result<Vec<u8>, E>,
    r: Result<Vec<u8>, RequestError>,
) -> bool {
    match answer {
        Ok(bytes) => r == Ok::<Vec<u8>, RequestError>(bytes),
        Err(e) => r matches Err(x) && x matches RequestError::HttpError { message }
            && vstd::string::to_string_from_display_ensures::<E>(&e, message),
    }
}

/// What sending a request with the given values may answer.
///
/// A placeholder whose field holds no value gives a URL error with the
/// missing path parameter inside. Otherwise the client is handed exactly the
/// wire form of the request, and its answer decides.
pub open spec fn delivered<C: HttpClient>(
    d: RequestDescriptorModel,
    values: Seq<Option<ValueModel>>,
    client: &C,
    base: Seq<char>,
    extra: Map<Seq<char>, Seq<char>>,
    timeout: Option<Duration>,
    r: Result<Vec<u8>, RequestError>,
) -> bool {
    match expand_path(d.path->0, path_params(d.path->0), d.fields, values) {
        Err(p) => r matches Err(e) && e@ == (ErrorModel::UrlBuildError {
            source: Box::new(ErrorModel::MissingPathParameter { param: p }),
        }),
        Ok(path) => exists|answer: Result<Vec<u8>, C::Error>|
            #[trigger] handed(client, wire_of(d, values, path, base, extra, timeout), answer)
                && transported(answer, r),
    }
}

/// Hands a prepared request to a client and answers for it.
pub fn dispatch<C: HttpClient>(client: &C, wire: PreparedRequest) -> (r: Result<
    Vec<u8>,
    RequestError,
>)
    ensures
        exists|answer: Result<Vec<u8>, C::Error>|
            #[trigger] handed(client, wire@, answer) && transported(answer, r),
{
    let method = wire.method.as_str();
    let url = wire.url.as_str();
    let ghost headers = wire.headers;
    let ghost body = wire.body;
    let answer = client.send(method, url, wire.headers, wire.body, wire.timeout);
    proof {
        assert(call_ensures(C::send, (client, method, url, headers, body, wire.timeout), answer));
        assert(handed(client, wire@, answer));
    }
    let r = wrap_transport(answer);
    assert(transported(answer, r));
    r
}

/// What a request answers for what its client answered: the response as it
/// is, or an HTTP error with what the client's error displays.
pub fn wrap_transport<E: std::fmt::Display>(answer: Result<Vec<u8>, E>) -> (r: Result<
    Vec<u8>,
    RequestError,
>)
    ensures
        transported(answer, r),
{
    match answer {
        Ok(bytes) => Ok(bytes),
        Err(e) => Err(RequestError::http_error(e)),
    }
}

/// What an encoder's answer says: the encoded pair, or its message.
pub open spec fn encoding_of(answer: Result<String, String>) -> Result<Seq<char>, Seq<char>> {
    match answer {
        Ok(s) => Ok(s@),
        Err(m) => Err(m@),
    }
}

/// The encoder, asked about `key` and `value`, may answer with `answer`.
pub open spec fn encoded_by<E: Fn(&str, &str) -> Result<String, String>>(
    encode: E,
    key: Seq<char>,
    value: Seq<char>,
    answer: Result<Seq<char>, Seq<char>>,
) -> bool {
    exists|k: &str, v: &str, r: Result<String, String>|
        k@ == key && v@ == value && #[trigger] call_ensures(encode, (k, v), r) && encoding_of(r)
            == answer
}

/// The parts of a query string after the first `n` answers of an encoder:
/// the encoded pairs, or the message of the first pair that the encoder
/// refused.
pub open spec fn parts_upto(answers: Seq<Result<Seq<char>, Seq<char>>>, n: nat) -> Result<
    Seq<Seq<char>>,
    Seq<char>,
>
    decreases n,
{
    if n == 0 {
        Ok(Seq::empty())
    } else {
        match parts_upto(answers, (n - 1) as nat) {
            Err(m) => Err(m),
            Ok(parts) => match answers[n - 1] {
                Err(m) => Err(m),
                Ok(part) => Ok(parts.push(part)),
            },
        }
    }
}

/// Every answer that counts is an answer of the encoder: for each pair that
/// is reached without an earlier refusal, the encoder may answer so when asked
/// about the pair's name and the text of its value.
pub open spec fn encoded<E: Fn(&str, &str) -> Result<String, String>>(
    encode: E,
    pairs: Seq<(Seq<char>, ValueModel)>,
    answers: Seq<Result<Seq<char>, Seq<char>>>,
    n: nat,
) -> bool {
    forall|i: int|
        0 <= i < n && #[trigger] parts_upto(answers, i as nat) is Ok ==> encoded_by(
            encode,
            pairs[i].0,
            display_text(pairs[i].1),
            answers[i],
        )
}

/// What building a URL with an encoder's answers gives: the path with the
/// encoded pairs as its query string, or a query error with the message of
/// the first pair that the encoder refused.
pub open spec fn url_outcome(
    path: Seq<char>,
    answers: Seq<Result<Seq<char>, Seq<char>>>,
    r: Result<String, RequestError>,
) -> bool {
    match parts_upto(answers, answers.len()) {
        Ok(parts) => r matches Ok(url) && url@ == with_query(path, joined(parts)),
        Err(m) => r matches Err(e) && e@ == (ErrorModel::QuerySerializationError { message: m }),
    }
}

/// What building a URL with an encoder of the caller's choice may give:
/// there are answers, one per pair, such that every answer that counts is one
/// that the encoder gave, and the result is what `url_outcome` says for them.
pub open spec fn url_built_with<E: Fn(&str, &str) -> Result<String, String>>(
    encode: E,
    path: Seq<char>,
    pairs: Seq<(Seq<char>, ValueModel)>,
    r: Result<String, RequestError>,
) -> bool {
    exists|answers: Seq<Result<Seq<char>, Seq<char>>>|
        answers.len() == pairs.len() && encoded(encode, pairs, answers, answers.len())
            && #[trigger] url_outcome(path, answers, r)
}

/// What a prepared request is, given an encoder's answers: the wire form
/// that is sent to the base URL followed by the path with the encoded pairs
/// as its query string, or a URL error with a query error inside that carries
/// the message of the first pair that the encoder refused.
pub open spec fn wire_outcome(
    d: RequestDescriptorModel,
    values: Seq<Option<ValueModel>>,
    path: Seq<char>,
    base: Seq<char>,
    extra: Map<Seq<char>, Seq<char>>,
    timeout: Option<Duration>,
    answers: Seq<Result<Seq<char>, Seq<char>>>,
    r: Result<PreparedRequest, RequestError>,
) -> bool {
    match parts_upto(answers, answers.len()) {
        Ok(parts) => r matches Ok(w) && w@ == wire_to(
            d,
            values,
            full_url(base, with_query(path, joined(parts))),
            extra,
            timeout,
        ),
        Err(m) => r matches Err(e) && e@ == (ErrorModel::UrlBuildError {
            source: Box::new(ErrorModel::QuerySerializationError { message: m }),
        }),
    }
}

/// What preparing a request with an encoder of the caller's choice may give.
///
/// A placeholder whose field holds no value gives a URL error with the
/// missing path parameter inside. Otherwise there are answers, one per query
/// pair, such that every answer that counts is one that the encoder gave, and
/// the result is what `wire_outcome` says for them.
pub open spec fn planned_with<E: Fn(&str, &str) -> Result<String, String>>(
    d: RequestDescriptorModel,
    values: Seq<Option<ValueModel>>,
    base: Seq<char>,
    extra: Map<Seq<char>, Seq<char>>,
    timeout: Option<Duration>,
    encode: E,
    r: Result<PreparedRequest, RequestError>,
) -> bool {
    match expand_path(d.path->0, path_params(d.path->0), d.fields, values) {
        Err(p) => r matches Err(e) && e@ == (ErrorModel::UrlBuildError {
            source: Box::new(ErrorModel::MissingPathParameter { param: p }),
        }),
        Ok(path) => exists|answers: Seq<Result<Seq<char>, Seq<char>>>|
            answers.len() == query_fields(d.fields, values).len() && encoded(
                encode,
                query_fields(d.fields, values),
                answers,
                answers.len(),
            ) && #[trigger] wire_outcome(d, values, path, base, extra, timeout, answers, r),
    }
}

/// What a request answers, given an encoder's answers, once its URL is
/// settled: a refusal of the encoder gives a URL error with a query error
/// inside; otherwise the client is handed exactly the wire form of the
/// request, and its answer decides.
pub open spec fn delivery_outcome<C: HttpClient>(
    d: RequestDescriptorModel,
    values: Seq<Option<ValueModel>>,
    path: Seq<char>,
    client: &C,
    base: Seq<char>,
    extra: Map<Seq<char>, Seq<char>>,
    timeout: Option<Duration>,
    answers: Seq<Result<Seq<char>, Seq<char>>>,
    r: Result<Vec<u8>, RequestError>,
) -> bool {
    match parts_upto(answers, answers.len()) {
        Ok(parts) => exists|answer: Result<Vec<u8>, C::Error>|
            #[trigger] handed(
                client,
                wire_to(d, values, full_url(base, with_query(path, joined(parts))), extra, timeout),
                answer,
            ) && transported(answer, r),
        Err(m) => r matches Err(e) && e@ == (ErrorModel::UrlBuildError {
            source: Box::new(ErrorModel::QuerySerializationError { message: m }),
        }),
    }
}

/// What sending a request with an encoder of the caller's choice may answer.
///
/// A placeholder whose field holds no value gives a URL error with the
/// missing path parameter inside. Otherwise there are answers of the encoder,
/// one per query pair, such that every answer that counts is one that the
/// encoder gave, and the result is what `delivery_outcome` says for them.
pub open spec fn delivered_with<C: HttpClient, E: Fn(&str, &str) -> Result<String, String>>(
    d: RequestDescriptorModel,
    values: Seq<Option<ValueModel>>,
    client: &C,
    base: Seq<char>,
    extra: Map<Seq<char>, Seq<char>>,
    timeout: Option<Duration>,
    encode: E,
    r: Result<Vec<u8>, RequestError>,
) -> bool {
    match expand_path(d.path->0, path_params(d.path->0), d.fields, values) {
        Err(p) => r matches Err(e) && e@ == (ErrorModel::UrlBuildError {
            source: Box::new(ErrorModel::MissingPathParameter { param: p }),
        }),
        Ok(path) => exists|answers: Seq<Result<Seq<char>, Seq<char>>>|
            answers.len() == query_fields(d.fields, values).len() && encoded(
                encode,
                query_fields(d.fields, values),
                answers,
                answers.len(),
            ) && #[trigger] delivery_outcome(
                d,
                values,
                path,
                client,
                base,
                extra,
                timeout,
                answers,
                r,
            ),
    }
}

/// The parts up to `n` depend on the answers before `n` alone.
pub proof fn lemma_parts_upto_prefix(
    first: Seq<Result<Seq<char>, Seq<char>>>,
    second: Seq<Result<Seq<char>, Seq<char>>>,
    n: nat,
)
    requires
        forall|i: int| 0 <= i < n ==> first[i] == second[i],
    ensures
        parts_upto(first, n) == parts_upto(second, n),
    decreases n,
{
    if n > 0 {
        lemma_parts_upto_prefix(first, second, (n - 1) as nat);
    }
}

/// A request that was built: every field is resolved, and what goes on the
/// wire can be computed from it.
#[derive(Debug, PartialEq, Eq)]
pub struct Request<'a> {
    descriptor: &'a RequestDescriptor,
    values: Vec<Option<FieldValue>>,
}

impl<'a> Request<'a> {
    #[verifier::type_invariant]
    spec fn shape(self) -> bool {
        self.values@.len() == self.descriptor.fields@.len()
    }

    /// What the request's type declares.
    pub closed spec fn descriptor(&self) -> RequestDescriptorModel {
        self.descriptor@
    }

    /// The values of the fields, in declaration order.
    pub closed spec fn values(&self) -> Seq<Option<ValueModel>> {
        slot_models(self.values@)
    }

    /// A request of the given type with the given values, one per field.
    pub(crate) fn assemble(descriptor: &'a RequestDescriptor, values: Vec<Option<FieldValue>>) -> (r:
        Request<'a>)
        requires
            values@.len() == descriptor.fields@.len(),
        ensures
            r.descriptor() == descriptor@,
            r.values() == slot_models(values@),
    {
        Request { descriptor, values }
    }

    /// Whether the request's type declares a URL template, and with it a URL,
    /// a body and headers.
    pub fn has_path(&self) -> (r: bool)
        ensures
            r == (self.descriptor().path is Some),
    {
        self.descriptor.path.is_some()
    }

    /// The value of the field called `name`: nothing where there is no such
    /// field, or where the field holds no value.
    pub fn get(&self, name: &str) -> (r: Option<&FieldValue>)
        ensures
            self.values().len() == self.descriptor().fields.len(),
            match r {
                Some(v) => {
                    let i = field_index(self.descriptor().fields, name@);
                    i < self.values().len() && self.values()[i] == Some(v@)
                },
                None => {
                    let i = field_index(self.descriptor().fields, name@);
                    i >= self.values().len() || self.values()[i] is None
                },
            },
    {
        proof {
            use_type_invariant(self);
        }
        let i = find_field(&self.descriptor.fields, name);
        if i < self.values.len() {
            self.values[i].as_ref()
        } else {
            None
        }
    }

    fn expand(&self, template: &str) -> (r: Result<Vec<char>, String>)
        ensures
            match r {
                Ok(p) => expand_path(
                    template@,
                    path_params(template@),
                    self.descriptor().fields,
                    self.values(),
                ) == Ok::<Seq<char>, Seq<char>>(p@),
                Err(n) => expand_path(
                    template@,
                    path_params(template@),
                    self.descriptor().fields,
                    self.values(),
                ) == Err::<Seq<char>, Seq<char>>(n@),
            },
    {
        proof {
            use_type_invariant(self);
        }
        let params = extract_path_params(template);
        let mut path = chars_of(template);
        let mut k: usize = 0;
        let ghost fields = self.descriptor().fields;
        let ghost values = self.values();
        let ghost all = texts(params@);
        proof {
            assert(all.skip(0) == all);
        }
        while k < params.len()
            invariant
                k <= params.len(),
                all == texts(params@),
                fields == self.descriptor().fields,
                values == self.values(),
                self.values@.len() == self.descriptor.fields@.len(),
                expand_path(template@, path_params(template@), fields, values) == expand_path(
                    path@,
                    all.skip(k as int),
                    fields,
                    values,
                ),
            decreases params.len() - k,
        {
            let name = params[k].as_str();
            proof {
                assert(all.skip(k as int)[0] == name@);
                assert(all.skip(k as int).skip(1) == all.skip(k + 1));
            }
            let i = find_field(&self.descriptor.fields, name);
            if i < self.values.len() {
                match &self.values[i] {
                    None => {
                        return Err(copy_text(name));
                    },
                    Some(v) => {
                        let pattern = placeholder_chars(name);
                        let mut text: Vec<char> = Vec::new();
                        v.push_text(&mut text);
                        assert(text@ == display_text(v@));
                        path = replace_chars(&path, &pattern, &text);
                    },
                }
            }
            k += 1;
        }
        Ok(path)
    }

    fn collect(&self, kind: FieldKind) -> (r: Vec<(String, FieldValue)>)
        ensures
            r@.len() == travelling(
                kind,
                self.descriptor().fields,
                self.values(),
                self.descriptor().fields.len(),
            ).len(),
            forall|i: int|
                0 <= i < r@.len() ==> (#[trigger] r@[i]).0@ == travelling(
                    kind,
                    self.descriptor().fields,
                    self.values(),
                    self.descriptor().fields.len(),
                )[i].0 && r@[i].1@ == travelling(
                    kind,
                    self.descriptor().fields,
                    self.values(),
                    self.descriptor().fields.len(),
                )[i].1,
    {
        proof {
            use_type_invariant(self);
        }
        let mut out: Vec<(String, FieldValue)> = Vec::new();
        let mut n: usize = 0;
        let ghost fields = self.descriptor().fields;
        let ghost values = self.values();
        while n < self.descriptor.fields.len()
            invariant
                n <= self.descriptor.fields.len(),
                fields == self.descriptor().fields,
                values == self.values(),
                self.values@.len() == self.descriptor.fields@.len(),
                out@.len() == travelling(kind, fields, values, n as nat).len(),
                forall|i: int|
                    0 <= i < out@.len() ==> (#[trigger] out@[i]).0@ == travelling(
                        kind,
                        fields,
                        values,
                        n as nat,
                    )[i].0 && out@[i].1@ == travelling(kind, fields, values, n as nat)[i].1,
            decreases self.descriptor.fields.len() - n,
        {
            let field = &self.descriptor.fields[n];
            proof {
                assert(fields[n as int] == field@);
                assert(values[n as int] == opt_value(self.values@[n as int]));
            }
            if field.kind == kind {
                match &self.values[n] {
                    Some(v) => {
                        out.push((copy_text(field.wire_name.as_str()), v.duplicate()));
                    },
                    None => {},
                }
            }
            n += 1;
        }
        out
    }

    fn declares_kind(&self, kind: FieldKind) -> (r: bool)
        ensures
            r == declares(kind, self.descriptor().fields),
    {
        let mut n: usize = 0;
        let ghost fields = self.descriptor().fields;
        while n < self.descriptor.fields.len()
            invariant
                n <= self.descriptor.fields.len(),
                fields == self.descriptor().fields,
                forall|i: int| 0 <= i < n ==> (#[trigger] fields[i]).kind != kind,
            decreases self.descriptor.fields.len() - n,
        {
            if self.descriptor.fields[n].kind == kind {
                assert(fields[n as int].kind == kind);
                return true;
            }
            n += 1;
        }
        false
    }

    /// The URL of the request: the path template with its placeholders
    /// filled, then `?` and the query string where there is one.
    ///
    /// Fails exactly if a placeholder's field holds no value, with the missing
    /// path parameter that names the first such placeholder.
    pub fn build_url(&self) -> (r: Result<String, RequestError>)
        requires
            self.descriptor().path is Some,
        ensures
            match expand_path(
                self.descriptor().path->0,
                path_params(self.descriptor().path->0),
                self.descriptor().fields,
                self.values(),
            ) {
                Err(p) => r matches Err(e) && e@ == (ErrorModel::MissingPathParameter { param: p }),
                Ok(path) => r matches Ok(url) && url@ == url_text(
                    path,
                    query_fields(self.descriptor().fields, self.values()),
                ),
            },
    {
        let template = match &self.descriptor.path {
            Some(t) => t.as_str(),
            None => "",
        };
        let path = match self.expand(template) {
            Ok(p) => p,
            Err(name) => {
                return Err(RequestError::MissingPathParameter { param: name });
            },
        };
        let pairs = self.collect(FieldKind::Query);
        let ghost wanted = query_fields(self.descriptor().fields, self.values());
        let ghost expanded = expand_path(
            self.descriptor().path->0,
            path_params(self.descriptor().path->0),
            self.descriptor().fields,
            self.values(),
        );
        let mut parts: Vec<String> = Vec::new();
        let mut i: usize = 0;
        while i < pairs.len()
            invariant
                i <= pairs.len(),
                expanded == Ok::<Seq<char>, Seq<char>>(path@),
                expanded == expand_path(
                    self.descriptor().path->0,
                    path_params(self.descriptor().path->0),
                    self.descriptor().fields,
                    self.values(),
                ),
                wanted == query_fields(self.descriptor().fields, self.values()),
                pairs@.len() == wanted.len(),
                forall|k: int|
                    0 <= k < pairs@.len() ==> (#[trigger] pairs@[k]).0@ == wanted[k].0
                        && pairs@[k].1@ == wanted[k].1,
                texts(parts@) == encoded_pairs(wanted).take(i as int),
            decreases pairs.len() - i,
        {
            let value = pairs[i].1.to_text();
            match query_pair(pairs[i].0.as_str(), value.as_str()) {
                Ok(part) => {
                    proof {
                        assert(pairs@[i as int].0@ == wanted[i as int].0);
                        crate::text::lemma_texts_push(parts@, part);
                        assert(encoded_pairs(wanted).take(i + 1) == encoded_pairs(wanted).take(
                            i as int,
                        ).push(part@));
                    }
                    parts.push(part);
                },
                Err(e) => {
                    return Err(
                        RequestError::QuerySerializationError { message: e.to_string() },
                    );
                },
            }
            i += 1;
        }
        proof {
            assert(encoded_pairs(wanted).take(wanted.len() as int) == encoded_pairs(wanted));
        }
        Ok(append_query(string_of(&path), &parts))
    }

    /// The URL of the request with a query string from an encoder of the
    /// caller's choice: the encoder is asked about each query field that holds
    /// a value, in declaration order, with the name under which the field
    /// travels and the text of its value.
    ///
    /// Fails with a missing path parameter exactly if a placeholder's field
    /// holds no value, naming the first such placeholder. Otherwise the result
    /// is the path with the encoded pairs, joined by `&`, as its query string,
    /// or a query error with the message of the first pair that the encoder
    /// refused. After a refusal the encoder is not asked again.
    pub fn build_url_with<E>(&self, encode: E) -> (r: Result<String, RequestError>) where
        E: Fn(&str, &str) -> Result<String, String>,

        requires
            self.descriptor().path is Some,
            forall|k: &str, v: &str| call_requires(encode, (k, v)),
        ensures
            match expand_path(
                self.descriptor().path->0,
                path_params(self.descriptor().path->0),
                self.descriptor().fields,
                self.values(),
            ) {
                Err(p) => r matches Err(e) && e@ == (ErrorModel::MissingPathParameter { param: p }),
                Ok(path) => url_built_with(
                    encode,
                    path,
                    query_fields(self.descriptor().fields, self.values()),
                    r,
                ),
            },
    {
        let template = match &self.descriptor.path {
            Some(t) => t.as_str(),
            None => "",
        };
        let path = match self.expand(template) {
            Ok(p) => p,
            Err(name) => {
                return Err(RequestError::MissingPathParameter { param: name });
            },
        };
        let pairs = self.collect(FieldKind::Query);
        let ghost wanted = query_fields(self.descriptor().fields, self.values());
        let mut parts: Vec<String> = Vec::new();
        let mut failure: Option<String> = None;
        let ghost mut answers: Seq<Result<Seq<char>, Seq<char>>> = Seq::empty();
        let ghost expanded = expand_path(
            self.descriptor().path->0,
            path_params(self.descriptor().path->0),
            self.descriptor().fields,
            self.values(),
        );
        let mut i: usize = 0;
        proof {
            assert(texts(parts@) =~= Seq::<Seq<char>>::empty());
        }
        while i < pairs.len()
            invariant
                i <= pairs.len(),
                expanded == Ok::<Seq<char>, Seq<char>>(path@),
                wanted == query_fields(self.descriptor().fields, self.values()),
                pairs@.len() == wanted.len(),
                forall|k: int|
                    0 <= k < pairs@.len() ==> (#[trigger] pairs@[k]).0@ == wanted[k].0
                        && pairs@[k].1@ == wanted[k].1,
                forall|k: &str, v: &str| call_requires(encode, (k, v)),
                answers.len() == i,
                encoded(encode, wanted, answers, i as nat),
                match failure {
                    None => parts_upto(answers, i as nat) == Ok::<Seq<Seq<char>>, Seq<char>>(
                        texts(parts@),
                    ),
                    Some(m) => parts_upto(answers, i as nat) == Err::<Seq<Seq<char>>, Seq<char>>(
                        m@,
                    ),
                },
            decreases pairs.len() - i,
        {
            let ghost before = answers;
            let ghost mut answer: Result<Seq<char>, Seq<char>> = Ok(Seq::empty());
            if failure.is_none() {
                let key = pairs[i].0.as_str();
                let value = pairs[i].1.to_text();
                let text = value.as_str();
                let given = encode(key, text);
                proof {
                    answer = encoding_of(given);
                    assert(pairs@[i as int].0@ == wanted[i as int].0);
                    assert(call_ensures(encode, (key, text), given));
                    assert(encoded_by(
                        encode,
                        wanted[i as int].0,
                        display_text(wanted[i as int].1),
                        answer,
                    ));
                }
                match given {
                    Ok(part) => {
                        proof {
                            crate::text::lemma_texts_push(parts@, part);
                        }
                        parts.push(part);
                    },
                    Err(message) => {
                        failure = Some(message);
                    },
                }
            }
            proof {
                answers = before.push(answer);
                lemma_parts_upto_prefix(before, answers, i as nat);
                assert forall|k: int|
                    0 <= k < i + 1 && #[trigger] parts_upto(answers, k as nat) is Ok implies encoded_by(
                    encode,
                    wanted[k].0,
                    display_text(wanted[k].1),
                    answers[k],
                ) by {
                    lemma_parts_upto_prefix(before, answers, k as nat);
                    if k < i {
                        assert(answers[k] == before[k]);
                    }
                }
            }
            i += 1;
        }
        let r = match failure {
            Some(message) => Err(RequestError::QuerySerializationError { message }),
            None => Ok(append_query(string_of(&path), &parts)),
        };
        proof {
            assert(url_outcome(path@, answers, r));
            assert(url_built_with(encode, path@, wanted, r));
        }
        r
    }

    /// The body of the request: nothing where no field travels in the body;
    /// otherwise a JSON object with one member for each body field that holds
    /// a value, which is the empty object where none does.
    pub fn build_body(&self) -> (r: Result<Option<Vec<u8>>, RequestError>)
        requires
            self.descriptor().path is Some,
        ensures
            r is Ok,
            !declares(FieldKind::Body, self.descriptor().fields) ==> r->Ok_0 is None,
            declares(FieldKind::Body, self.descriptor().fields) ==> r->Ok_0 is Some
                && r->Ok_0->0@ == json_object(body_fields(self.descriptor().fields, self.values())),
    {
        if !self.declares_kind(FieldKind::Body) {
            return Ok(None);
        }
        let pairs = self.collect(FieldKind::Body);
        let ghost wanted = body_fields(self.descriptor().fields, self.values());
        let mut out: Vec<u8> = Vec::new();
        out.push(OPEN_BRACE);
        let mut i: usize = 0;
        proof {
            assert(wanted.take(0) =~= Seq::<(Seq<char>, ValueModel)>::empty());
            assert(out@ == seq![OPEN_BRACE] + json_members(wanted.take(0)));
        }
        while i < pairs.len()
            invariant
                i <= pairs.len(),
                pairs@.len() == wanted.len(),
                forall|k: int|
                    0 <= k < pairs@.len() ==> (#[trigger] pairs@[k]).0@ == wanted[k].0
                        && pairs@[k].1@ == wanted[k].1,
                out@ == seq![OPEN_BRACE] + json_members(wanted.take(i as int)),
            decreases pairs.len() - i,
        {
            let ghost before = out@;
            proof {
                let next = wanted.take(i + 1);
                assert(next.drop_last() == wanted.take(i as int));
                assert(next.last() == wanted[i as int]);
                assert(pairs@[i as int].0@ == wanted[i as int].0);
                if i == 0 {
                    assert(next[0] == wanted[0]);
                }
            }
            if i > 0 {
                out.push(COMMA);
            }
            match push_json_text(&mut out, pairs[i].0.as_str()) {
                Ok(()) => {},
                Err(e) => {
                    return Err(e);
                },
            }
            out.push(COLON);
            match push_json_value(&mut out, &pairs[i].1) {
                Ok(()) => {},
                Err(e) => {
                    return Err(e);
                },
            }
            proof {
                let member = json_member(wanted[i as int].0, wanted[i as int].1);
                if i == 0 {
                    assert(out@ == before + member);
                    assert(before + member == seq![OPEN_BRACE] + member);
                } else {
                    assert(out@ == before + seq![COMMA] + member);
                    assert(before + seq![COMMA] + member == seq![OPEN_BRACE] + (json_members(
                        wanted.take(i as int),
                    ) + seq![COMMA] + member));
                }
            }
            i += 1;
        }
        proof {
            assert(wanted.take(wanted.len() as int) == wanted);
        }
        out.push(CLOSE_BRACE);
        Ok(Some(out))
    }

    /// The headers of the request: one for each header field that holds a
    /// value.
    pub fn build_headers(&self) -> (r: HeaderMap)
        requires
            self.descriptor().path is Some,
        ensures
            r@ == headers_of(self.descriptor().fields, self.values()),
    {
        let pairs = self.collect(FieldKind::Header);
        let ghost wanted = header_fields(self.descriptor().fields, self.values());
        let mut headers = HeaderMap::new();
        let mut i: usize = 0;
        proof {
            assert(shown(wanted).take(0) =~= Seq::<(Seq<char>, Seq<char>)>::empty());
        }
        while i < pairs.len()
            invariant
                i <= pairs.len(),
                pairs@.len() == wanted.len(),
                forall|k: int|
                    0 <= k < pairs@.len() ==> (#[trigger] pairs@[k]).0@ == wanted[k].0
                        && pairs@[k].1@ == wanted[k].1,
                headers@ == map_of(shown(wanted).take(i as int)),
            decreases pairs.len() - i,
        {
            proof {
                let next = shown(wanted).take(i + 1);
                assert(next.drop_last() == shown(wanted).take(i as int));
                assert(next.last() == shown(wanted)[i as int]);
                assert(pairs@[i as int].0@ == wanted[i as int].0);
            }
            headers.insert(copy_text(pairs[i].0.as_str()), pairs[i].1.to_text());
            i += 1;
        }
        proof {
            assert(shown(wanted).take(wanted.len() as int) == shown(wanted));
        }
        headers
    }
    /// What goes on the wire for this request, sent to `base_url` with
    /// `extra` headers within `timeout`.
    ///
    /// Fails exactly if a placeholder's field holds no value, with a URL error
    /// that has the missing path parameter inside.
    pub fn prepare(&self, base_url: &str, extra: &HeaderMap, timeout: Option<Duration>) -> (r:
        Result<PreparedRequest, RequestError>)
        requires
            self.descriptor().path is Some,
        ensures
            planned(self.descriptor(), self.values(), base_url@, extra@, timeout, r),
    {
        let own = match self.build_url() {
            Ok(u) => u,
            Err(e) => {
                return Err(RequestError::url_build_error(e));
            },
        };
        let mut url = chars_of(base_url);
        append_str(&mut url, own.as_str());
        let mut headers = self.build_headers();
        headers.extend_from(extra);
        let body = match self.build_body() {
            Ok(b) => b,
            Err(e) => {
                return Err(e);
            },
        };
        Ok(
            PreparedRequest {
                method: copy_text(self.descriptor.method.as_str()),
                url: string_of(&url),
                headers,
                body,
                timeout,
            },
        )
    }

    /// What goes on the wire for this request, sent to `base_url` with
    /// `extra` headers within `timeout`, with a query string from an encoder
    /// of the caller's choice.
    ///
    /// Fails with a URL error exactly if the URL cannot be built: with the
    /// missing path parameter inside where a placeholder's field holds no
    /// value, else with a query error inside that carries the message of the
    /// first pair that the encoder refused.
    pub fn prepare_with<E>(
        &self,
        base_url: &str,
        extra: &HeaderMap,
        timeout: Option<Duration>,
        encode: E,
    ) -> (r: Result<PreparedRequest, RequestError>) where
        E: Fn(&str, &str) -> Result<String, String>,

        requires
            self.descriptor().path is Some,
            forall|k: &str, v: &str| call_requires(encode, (k, v)),
        ensures
            planned_with(self.descriptor(), self.values(), base_url@, extra@, timeout, encode, r),
    {
        let ghost d = self.descriptor();
        let ghost values = self.values();
        let built = self.build_url_with(encode);
        let ghost expanded = expand_path(d.path->0, path_params(d.path->0), d.fields, values);
        let own = match built {
            Ok(u) => u,
            Err(e) => {
                let r = Err(RequestError::url_build_error(e));
                proof {
                    if expanded is Ok {
                        let answers = choose|answers: Seq<Result<Seq<char>, Seq<char>>>|
                            answers.len() == query_fields(d.fields, values).len() && encoded(
                                encode,
                                query_fields(d.fields, values),
                                answers,
                                answers.len(),
                            ) && #[trigger] url_outcome(expanded->Ok_0, answers, built);
                        assert(wire_outcome(
                            d,
                            values,
                            expanded->Ok_0,
                            base_url@,
                            extra@,
                            timeout,
                            answers,
                            r,
                        ));
                    }
                }
                return r;
            },
        };
        let mut url = chars_of(base_url);
        append_str(&mut url, own.as_str());
        let mut headers = self.build_headers();
        headers.extend_from(extra);
        let body = match self.build_body() {
            Ok(b) => b,
            Err(e) => {
                return Err(e);
            },
        };
        let r = Ok(
            PreparedRequest {
                method: copy_text(self.descriptor.method.as_str()),
                url: string_of(&url),
                headers,
                body,
                timeout,
            },
        );
        proof {
            let answers = choose|answers: Seq<Result<Seq<char>, Seq<char>>>|
                answers.len() == query_fields(d.fields, values).len() && encoded(
                    encode,
                    query_fields(d.fields, values),
                    answers,
                    answers.len(),
                ) && #[trigger] url_outcome(expanded->Ok_0, answers, built);
            assert(wire_outcome(
                d,
                values,
                expanded->Ok_0,
                base_url@,
                extra@,
                timeout,
                answers,
                r,
            ));
        }
        r
    }

    /// Sends the request with `client` to `base_url` followed by the
    /// request's own URL, without extra headers and without timeout.
    pub fn send_with_client<C: HttpClient>(&self, client: &C, base_url: &str) -> (r: Result<
        Vec<u8>,
        RequestError,
    >)
        requires
            self.descriptor().path is Some,
        ensures
            delivered(
                self.descriptor(),
                self.values(),
                client,
                base_url@,
                Map::<Seq<char>, Seq<char>>::empty(),
                None,
                r,
            ),
    {
        let extra = HeaderMap::new();
        let wire = match self.prepare(base_url, &extra, None) {
            Ok(w) => w,
            Err(e) => {
                return Err(e);
            },
        };
        dispatch(client, wire)
    }

    /// Sends the request with `client` to `base_url` followed by the
    /// request's own URL, with `extra` headers within `timeout`, with a query
    /// string from an encoder of the caller's choice.
    pub fn send_with<C: HttpClient, E>(
        &self,
        client: &C,
        base_url: &str,
        extra: &HeaderMap,
        timeout: Option<Duration>,
        encode: E,
    ) -> (r: Result<Vec<u8>, RequestError>) where E: Fn(&str, &str) -> Result<String, String>
        requires
            self.descriptor().path is Some,
            forall|k: &str, v: &str| call_requires(encode, (k, v)),
        ensures
            delivered_with(
                self.descriptor(),
                self.values(),
                client,
                base_url@,
                extra@,
                timeout,
                encode,
                r,
            ),
    {
        let ghost d = self.descriptor();
        let ghost values = self.values();
        let ghost expanded = expand_path(d.path->0, path_params(d.path->0), d.fields, values);
        let prepared = self.prepare_with(base_url, extra, timeout, encode);
        let ghost answers = choose|answers: Seq<Result<Seq<char>, Seq<char>>>|
            answers.len() == query_fields(d.fields, values).len() && encoded(
                encode,
                query_fields(d.fields, values),
                answers,
                answers.len(),
            ) && #[trigger] wire_outcome(
                d,
                values,
                expanded->Ok_0,
                base_url@,
                extra@,
                timeout,
                answers,
                prepared,
            );
        let wire = match prepared {
            Ok(w) => w,
            Err(e) => {
                let r = Err(e);
                proof {
                    if expanded is Ok {
                        assert(delivery_outcome(
                            d,
                            values,
                            expanded->Ok_0,
                            client,
                            base_url@,
                            extra@,
                            timeout,
                            answers,
                            r,
                        ));
                    }
                }
                return r;
            },
        };
        let r = dispatch(client, wire);
        proof {
            assert(delivery_outcome(
                d,
                values,
                expanded->Ok_0,
                client,
                base_url@,
                extra@,
                timeout,
                answers,
                r,
            ));
        }
        r
    }
}

} // verus!
