use vstd::prelude::*;
use crate::BASE_URL;

verus! {

/// The HTTP method of a request.
#[derive(Debug, Clone, Copy, PartialEq, Eq, Structural)]
pub enum Method {
    Get,
    Post,
    Put,
    Patch,
    Delete,
}

/// A request ready to be sent: its method, its full URL and its headers, in order.
pub struct Request {
    pub method: Method,
    pub url: String,
    pub headers: Vec<(String, String)>,
}

/// The mathematical model of a [`Request`].
pub struct RequestView {
    pub method: Method,
    pub url: Seq<char>,
    pub headers: Seq<(Seq<char>, Seq<char>)>,
}

impl View for Request {
    type V = RequestView;

    open spec fn view(&self) -> RequestView {
        RequestView {
            method: self.method,
            url: self.url@,
            headers: self.headers@.map_values(|e: (String, String)| (e.0@, e.1@)),
        }
    }
}

/// A client of the API: the key it authenticates with and the base URL it sends to.
/// Neither changes after construction.
pub struct Client {
    api_key: String,
    base_url: String,
}

/// The mathematical model of a [`Client`].
pub struct ClientView {
    pub api_key: Seq<char>,
    pub base_url: Seq<char>,
}

impl View for Client {
    type V = ClientView;

    closed spec fn view(&self) -> ClientView {
        ClientView { api_key: self.api_key@, base_url: self.base_url@ }
    }
}

/// The URL of `endpoint` under `base`: the two joined by a `/`.
pub open spec fn endpoint_url(base: Seq<char>, endpoint: Seq<char>) -> Seq<char> {
    base + seq!['/'] + endpoint
}

/// The value of the `Authorization` header for `api_key`.
pub open spec fn bearer(api_key: Seq<char>) -> Seq<char> {
    "Bearer "@ + api_key
}

/// The headers set on every request made with `api_key`.
pub open spec fn standard_headers(api_key: Seq<char>) -> Seq<(Seq<char>, Seq<char>)> {
    seq![("Authorization"@, bearer(api_key)), ("Content-Type"@, "application/json"@)]
}

/// The request that a client with model `c` makes for `endpoint` with `method`.
pub open spec fn request_for(c: ClientView, method: Method, endpoint: Seq<char>) -> RequestView {
    RequestView {
        method,
        url: endpoint_url(c.base_url, endpoint),
        headers: standard_headers(c.api_key),
    }
}

/// The request for the identity of the caller.
pub open spec fn whoami_request(c: ClientView) -> RequestView {
    request_for(c, Method::Get, "whoami"@)
}

impl Client {
    /// A client that authenticates with `api_key` and sends to [`BASE_URL`].
    pub fn new(api_key: &str) -> (r: Client)
        ensures
            r@ == (ClientView { api_key: api_key@, base_url: BASE_URL@ }),
    {
        Client { api_key: api_key.to_owned(), base_url: BASE_URL.to_owned() }
    }

    /// A client that authenticates with `api_key` and sends to `base_url`.
    pub fn with_base_url(api_key: &str, base_url: &str) -> (r: Client)
        ensures
            r@ == (ClientView { api_key: api_key@, base_url: base_url@ }),
    {
        Client { api_key: api_key.to_owned(), base_url: base_url.to_owned() }
    }

    /// The key this client authenticates with.
    pub fn api_key(&self) -> (r: &str)
        ensures
            r@ == self@.api_key,
    {
        self.api_key.as_str()
    }

    /// The base URL this client sends to.
    pub fn base_url(&self) -> (r: &str)
        ensures
            r@ == self@.base_url,
    {
        self.base_url.as_str()
    }

    /// The full URL of `endpoint`.
    pub fn url(&self, endpoint: &str) -> (r: String)
        ensures
            r@ == endpoint_url(self@.base_url, endpoint@),
    {
        let mut url = self.base_url.clone();
        url.append("/");
        url.append(endpoint);
        proof {
            reveal_strlit("/");
        }
        url
    }

    /// The headers sent with every request: `Authorization: Bearer <key>` and
    /// `Content-Type: application/json`.
    pub fn headers(&self) -> (r: Vec<(String, String)>)
        ensures
            r@.map_values(|e: (String, String)| (e.0@, e.1@)) == standard_headers(self@.api_key),
    {
        let mut token = "Bearer ".to_owned();
        token.append(self.api_key.as_str());
        let mut result: Vec<(String, String)> = Vec::new();
        result.push(("Authorization".to_owned(), token));
        result.push(("Content-Type".to_owned(), "application/json".to_owned()));
        assert(result@.map_values(|e: (String, String)| (e.0@, e.1@)) =~= standard_headers(self@.api_key));
        result
    }

    /// The request for `endpoint` with `method`.
    pub fn request(&self, method: Method, endpoint: &str) -> (r: Request)
        ensures
            r@ == request_for(self@, method, endpoint@),
    {
        Request { method, url: self.url(endpoint), headers: self.headers() }
    }

    /// The `GET` request for `endpoint`.
    pub fn get(&self, endpoint: &str) -> (r: Request)
        ensures
            r@ == request_for(self@, Method::Get, endpoint@),
    {
        self.request(Method::Get, endpoint)
    }

    /// The request for the identity of the caller: `GET <base>/whoami`.
    pub fn whoami(&self) -> (r: Request)
        ensures
            r@ == whoami_request(self@),
    {
        self.get("whoami")
    }
}

/// Two clients with different keys send different `Authorization` values for the same
/// request.
pub proof fn lemma_distinct_keys_distinct_authorization(a: ClientView, b: ClientView)
    requires
        a.api_key != b.api_key,
    ensures
        whoami_request(a).headers[0].0 == "Authorization"@,
        whoami_request(b).headers[0].0 == "Authorization"@,
        whoami_request(a).headers[0].1 != whoami_request(b).headers[0].1,
{
    reveal_strlit("Bearer ");
    let pa = bearer(a.api_key);
    let pb = bearer(b.api_key);
    assert(pa.subrange(7, pa.len() as int) =~= a.api_key);
    assert(pb.subrange(7, pb.len() as int) =~= b.api_key);
}

} // verus!
