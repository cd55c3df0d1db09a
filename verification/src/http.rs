use vstd::prelude::*;

use crate::json::JsonValue;

verus! {

#[verifier::external_type_specification]
#[verifier::external_body]
pub struct ExHttpMethod(reqwest::Method);

/// A character that may stand in an HTTP method: a `tchar` of RFC 9110,
/// as `http`'s table of method characters lists them.
pub open spec fn is_method_char(c: char) -> bool {
    ||| ('0' <= c && c <= '9')
    ||| ('A' <= c && c <= 'Z')
    ||| ('a' <= c && c <= 'z')
    ||| c == '!' || c == '#' || c == '$' || c == '%' || c == '&' || c == '\''
    ||| c == '*' || c == '+' || c == '-' || c == '.' || c == '^' || c == '_'
    ||| c == '`' || c == '|' || c == '~'
}

/// Whether `reqwest::Method::from_bytes` accepts the bytes of `name`: the
/// name is not empty and every character is a method character (any other
/// byte, a non-ASCII one among them, is refused).
pub open spec fn http_method_accepted(name: Seq<char>) -> bool {
    name.len() > 0 && forall|i: int| 0 <= i < name.len() ==> #[trigger] is_method_char(name[i])
}

/// The text of `http::method::InvalidMethod`'s `Display`.
pub open spec fn invalid_method_text() -> Seq<char> {
    "invalid HTTP method"@
}

/// An HTTP method and the name it was read from.
pub struct HttpMethod {
    method: reqwest::Method,
    name: Ghost<Seq<char>>,
}

impl HttpMethod {
    /// The name the method was read from.
    pub closed spec fn name(&self) -> Seq<char> {
        self.name@
    }

    /// The method, for the request builder.
    pub fn into_method(self) -> reqwest::Method {
        self.method
    }

    /// `Method::as_str`: the method's text, which is the name it was read
    /// from (`from_bytes` keeps the bytes of a standard method's name and of
    /// an extension alike).
    #[verifier::external_body]
    pub fn text(&self) -> (r: String)
        ensures
            r@ == self.name(),
    {
        self.method.as_str().to_string()
    }
}

/// `reqwest::Method::from_bytes` on the bytes of `name`: the method, whose
/// name is `name`, or the error's text, which is always the same.
#[verifier::external_body]
fn http_method(name: &str) -> (r: Result<HttpMethod, String>)
    ensures
        r is Ok <==> http_method_accepted(name@),
        r matches Ok(m) ==> m.name() == name@,
        r matches Err(e) ==> e@ == invalid_method_text(),
{
    match reqwest::Method::from_bytes(name.as_bytes()) {
        Ok(method) => Ok(HttpMethod { method, name: Ghost(name@) }),
        Err(e) => Err(e.to_string()),
    }
}

/// The request headers among the fields of a headers object: the fields
/// whose value is a string, in order.
pub open spec fn header_pairs(fields: Seq<(String, JsonValue)>) -> Seq<(Seq<char>, Seq<char>)>
    decreases fields.len(),
{
    if fields.len() == 0 {
        Seq::empty()
    } else {
        let rest = header_pairs(fields.drop_last());
        match fields.last().1 {
            JsonValue::String(v) => rest.push((fields.last().0@, v@)),
            _ => rest,
        }
    }
}

/// The mathematical value of a list of headers.
pub open spec fn headers_view(h: Seq<(String, String)>) -> Seq<(Seq<char>, Seq<char>)> {
    h.map_values(|p: (String, String)| (p.0@, p.1@))
}

/// The headers that a request carries, from the JSON object a script
/// passes: every field whose value is a string; anything that is not an
/// object gives none.
pub fn string_headers(headers: &JsonValue) -> (r: Vec<(String, String)>)
    ensures
        headers_view(r@) == match *headers {
            JsonValue::Object(fields) => header_pairs(fields@),
            _ => Seq::empty(),
        },
{
    let mut out: Vec<(String, String)> = Vec::new();
    match headers {
        JsonValue::Object(fields) => {
            let n = fields.len();
            proof {
                assert(headers_view(out@) =~= Seq::<(Seq<char>, Seq<char>)>::empty());
                assert(fields@.take(0) =~= Seq::<(String, JsonValue)>::empty());
            }
            for i in 0..n
                invariant
                    n == fields@.len(),
                    headers_view(out@) == header_pairs(fields@.take(i as int)),
            {
                proof {
                    assert(fields@.take(i as int + 1).drop_last() =~= fields@.take(i as int));
                    assert(fields@.take(i as int + 1).last() == fields@[i as int]);
                }
                match &fields[i].1 {
                    JsonValue::String(v) => {
                        let ghost before = out@;
                        out.push((fields[i].0.clone(), v.clone()));
                        proof {
                            assert(headers_view(out@) =~= headers_view(before).push((fields@[i as int].0@, v@)));
                        }
                    },
                    _ => {},
                }
            }
            proof {
                assert(fields@.take(n as int) =~= fields@);
            }
        },
        _ => {
            proof {
                assert(headers_view(out@) =~= Seq::<(Seq<char>, Seq<char>)>::empty());
            }
        },
    }
    out
}

/// The headers of a request from the decoded headers object.
pub open spec fn spec_string_headers(headers: JsonValue) -> Seq<(Seq<char>, Seq<char>)> {
    match headers {
        JsonValue::Object(fields) => header_pairs(fields@),
        _ => Seq::empty(),
    }
}

/// What a request needs before it is sent.
pub struct HttpRequestPlan {
    pub method: HttpMethod,
    pub headers: Vec<(String, String)>,
}

/// Gets a request ready: the method named by `method` is read first, then
/// the headers object (`headers` is the decoded headers text, or the
/// decoding error) gives the string-valued headers.
pub fn plan_http_request(method: &str, headers: Result<JsonValue, String>) -> (r: Result<HttpRequestPlan, String>)
    ensures
        !http_method_accepted(method@) ==> (r matches Err(e) && e@ == invalid_method_text()),
        http_method_accepted(method@) ==> match headers {
            Err(e) => (r matches Err(m) && m@ == e@),
            Ok(h) => (r matches Ok(p) && p.method.name() == method@ && headers_view(p.headers@) == spec_string_headers(h)),
        },
{
    let method = http_method(method)?;
    let headers = headers?;
    Ok(HttpRequestPlan { method, headers: string_headers(&headers) })
}

} // verus!
