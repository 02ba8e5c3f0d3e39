//! The requests that the venue answers: where each goes and what it asks.

use crate::auth::{create_auth_headers, signable, signature_spec, signed_text, AuthHeaders};
use vstd::prelude::*;
use vstd::string::StringExecFns;

verus! {

/// The root of the venue's public endpoints.
pub const PUBLIC_API_URL: &'static str = "https://api.coin.z.com/public";

/// The root of the venue's private endpoints, which take signed requests.
pub const PRIVATE_API_URL: &'static str = "https://api.coin.z.com/private";

/// The method of every request.
pub const METHOD: &'static str = "GET";

/// Which root a request goes to.
#[derive(Clone, Copy, Debug, PartialEq, Eq, Structural)]
pub enum Endpoint {
    Public,
    Private,
}

/// A GET request: its root, its path below the root, and its query
/// parameters in order.
#[derive(Debug, Clone, PartialEq)]
pub struct Request {
    pub endpoint: Endpoint,
    pub path: String,
    pub query: Vec<(String, String)>,
}

/// Query parameters as mathematical values.
pub open spec fn query_view(query: Seq<(String, String)>) -> Seq<(Seq<char>, Seq<char>)> {
    Seq::new(query.len(), |i: int| (query[i].0@, query[i].1@))
}

/// A request as mathematical values.
pub struct RequestView {
    pub endpoint: Endpoint,
    pub path: Seq<char>,
    pub query: Seq<(Seq<char>, Seq<char>)>,
}

impl View for Request {
    type V = RequestView;

    open spec fn view(&self) -> RequestView {
        RequestView {
            endpoint: self.endpoint,
            path: self.path@,
            query: query_view(self.query@),
        }
    }
}

/// The character of a decimal digit.
pub open spec fn digit_char(d: int) -> char {
    if d == 0 {
        '0'
    } else if d == 1 {
        '1'
    } else if d == 2 {
        '2'
    } else if d == 3 {
        '3'
    } else if d == 4 {
        '4'
    } else if d == 5 {
        '5'
    } else if d == 6 {
        '6'
    } else if d == 7 {
        '7'
    } else if d == 8 {
        '8'
    } else {
        '9'
    }
}

/// A natural number in decimal, without leading zeros.
pub open spec fn nat_text(n: nat) -> Seq<char>
    decreases n,
{
    if n < 10 {
        seq![digit_char(n as int)]
    } else {
        nat_text(n / 10).push(digit_char((n % 10) as int))
    }
}

/// An integer in decimal, with a minus sign where it is negative.
pub open spec fn int_text(v: int) -> Seq<char> {
    if v < 0 {
        seq!['-'] + nat_text((-v) as nat)
    } else {
        nat_text(v as nat)
    }
}

fn digit_str(d: u64) -> (r: &'static str)
    requires
        d < 10,
    ensures
        r@ == seq![digit_char(d as int)],
{
    proof {
        reveal_strlit("0");
        reveal_strlit("1");
        reveal_strlit("2");
        reveal_strlit("3");
        reveal_strlit("4");
        reveal_strlit("5");
        reveal_strlit("6");
        reveal_strlit("7");
        reveal_strlit("8");
        reveal_strlit("9");
    }
    let r = if d == 0 {
        "0"
    } else if d == 1 {
        "1"
    } else if d == 2 {
        "2"
    } else if d == 3 {
        "3"
    } else if d == 4 {
        "4"
    } else if d == 5 {
        "5"
    } else if d == 6 {
        "6"
    } else if d == 7 {
        "7"
    } else if d == 8 {
        "8"
    } else {
        "9"
    };
    assert(r@ =~= seq![digit_char(d as int)]);
    r
}

fn nat_to_text(n: u64) -> (r: String)
    ensures
        r@ == nat_text(n as nat),
    decreases n,
{
    if n < 10 {
        String::from_str(digit_str(n))
    } else {
        let mut s = nat_to_text(n / 10);
        let ghost before = s@;
        s.append(digit_str(n % 10));
        assert(s@ =~= before.push(digit_char((n % 10) as int)));
        s
    }
}

/// Writes an integer in decimal.
pub fn int_to_text(v: i64) -> (r: String)
    ensures
        r@ == int_text(v as int),
{
    if v < 0 {
        proof {
            reveal_strlit("-");
        }
        let m: u64 = (-(v as i128)) as u64;
        let digits = nat_to_text(m);
        let r = String::from_str("-").concat(digits.as_str());
        assert("-"@ =~= seq!['-']);
        r
    } else {
        nat_to_text(v as u64)
    }
}

/// The query of a request with the parameters that are given, in order.
pub open spec fn given(params: Seq<(Seq<char>, Option<Seq<char>>)>) -> Seq<(Seq<char>, Seq<char>)>
    decreases params.len(),
{
    if params.len() == 0 {
        Seq::empty()
    } else {
        match params.last().1 {
            Some(v) => given(params.drop_last()).push((params.last().0, v)),
            None => given(params.drop_last()),
        }
    }
}

/// A parameter's text, where it is given.
pub open spec fn text_view(v: Option<String>) -> Option<Seq<char>> {
    match v {
        Some(s) => Some(s@),
        None => None,
    }
}

/// A parameter's number in decimal, where it is given.
pub open spec fn number_view(v: Option<i64>) -> Option<Seq<char>> {
    match v {
        Some(n) => Some(int_text(n as int)),
        None => None,
    }
}

fn push_given(
    query: &mut Vec<(String, String)>,
    name: &str,
    value: Option<String>,
    Ghost(before): Ghost<Seq<(Seq<char>, Option<Seq<char>>)>>,
)
    requires
        query_view(old(query)@) == given(before),
    ensures
        query_view(final(query)@) == given(before.push((name@, text_view(value)))),
{
    proof {
        assert(before.push((name@, text_view(value))).drop_last() =~= before);
    }
    match value {
        Some(v) => {
            let ghost held = query_view(query@);
            query.push((String::from_str(name), v));
            assert(query_view(query@) =~= held.push((name@, v@)));
        },
        None => {},
    }
}

/// The request for the state of the venue's service.
pub fn status_request() -> (r: Request)
    ensures
        r@ == (RequestView {
            endpoint: Endpoint::Public,
            path: "/v1/status"@,
            query: Seq::empty(),
        }),
{
    let r = Request {
        endpoint: Endpoint::Public,
        path: String::from_str("/v1/status"),
        query: Vec::new(),
    };
    assert(r@.query =~= Seq::empty());
    r
}

/// The request for the ticker of a symbol, or of every symbol.
pub fn ticker_request(symbol: Option<String>) -> (r: Request)
    ensures
        r@ == (RequestView {
            endpoint: Endpoint::Public,
            path: "/v1/ticker"@,
            query: given(seq![("symbol"@, text_view(symbol))]),
        }),
{
    let mut query: Vec<(String, String)> = Vec::new();
    let ghost none = Seq::<(Seq<char>, Option<Seq<char>>)>::empty();
    assert(query_view(query@) =~= given(none));
    push_given(&mut query, "symbol", symbol, Ghost(none));
    assert(none.push(("symbol"@, text_view(symbol))) =~= seq![("symbol"@, text_view(symbol))]);
    Request { endpoint: Endpoint::Public, path: String::from_str("/v1/ticker"), query }
}

/// The request for the account's balances.
pub fn assets_request() -> (r: Request)
    ensures
        r@ == (RequestView {
            endpoint: Endpoint::Private,
            path: "/v1/account/assets"@,
            query: Seq::empty(),
        }),
{
    let r = Request {
        endpoint: Endpoint::Private,
        path: String::from_str("/v1/account/assets"),
        query: Vec::new(),
    };
    assert(r@.query =~= Seq::empty());
    r
}

/// The request for the executions of an order, of an execution id, or both.
pub fn executions_request(order_id: Option<String>, execution_id: Option<String>) -> (r: Request)
    ensures
        r@ == (RequestView {
            endpoint: Endpoint::Private,
            path: "/v1/executions"@,
            query: given(
                seq![("orderId"@, text_view(order_id)), ("executionId"@, text_view(execution_id))],
            ),
        }),
{
    let mut query: Vec<(String, String)> = Vec::new();
    let ghost none = Seq::<(Seq<char>, Option<Seq<char>>)>::empty();
    let ghost one = none.push(("orderId"@, text_view(order_id)));
    assert(query_view(query@) =~= given(none));
    push_given(&mut query, "orderId", order_id, Ghost(none));
    push_given(&mut query, "executionId", execution_id, Ghost(one));
    assert(one.push(("executionId"@, text_view(execution_id))) =~= seq![
        ("orderId"@, text_view(order_id)),
        ("executionId"@, text_view(execution_id)),
    ]);
    Request { endpoint: Endpoint::Private, path: String::from_str("/v1/executions"), query }
}

/// The request for the latest executions of a symbol, by page and page size
/// where they are given.
pub fn latest_executions_request(symbol: String, page: Option<i64>, count: Option<i64>) -> (r:
    Request)
    ensures
        r@ == (RequestView {
            endpoint: Endpoint::Private,
            path: "/v1/latestExecutions"@,
            query: given(
                seq![
                    ("symbol"@, Some(symbol@)),
                    ("page"@, number_view(page)),
                    ("count"@, number_view(count)),
                ],
            ),
        }),
{
    let page_text = match page {
        Some(v) => Some(int_to_text(v)),
        None => None,
    };
    let count_text = match count {
        Some(v) => Some(int_to_text(v)),
        None => None,
    };
    let mut query: Vec<(String, String)> = Vec::new();
    let ghost none = Seq::<(Seq<char>, Option<Seq<char>>)>::empty();
    let ghost one = none.push(("symbol"@, Some(symbol@)));
    let ghost two = one.push(("page"@, number_view(page)));
    assert(query_view(query@) =~= given(none));
    push_given(&mut query, "symbol", Some(symbol), Ghost(none));
    push_given(&mut query, "page", page_text, Ghost(one));
    push_given(&mut query, "count", count_text, Ghost(two));
    assert(two.push(("count"@, number_view(count))) =~= seq![
        ("symbol"@, Some(symbol@)),
        ("page"@, number_view(page)),
        ("count"@, number_view(count)),
    ]);
    Request { endpoint: Endpoint::Private, path: String::from_str("/v1/latestExecutions"), query }
}

/// The root that a request goes to.
pub open spec fn root_spec(endpoint: Endpoint) -> Seq<char> {
    match endpoint {
        Endpoint::Public => PUBLIC_API_URL@,
        Endpoint::Private => PRIVATE_API_URL@,
    }
}

impl Request {
    /// The address of the request, without its query: root and path.
    pub fn url(&self) -> (r: String)
        ensures
            r@ == root_spec(self.endpoint) + self.path@,
    {
        let root = match self.endpoint {
            Endpoint::Public => PUBLIC_API_URL,
            Endpoint::Private => PRIVATE_API_URL,
        };
        String::from_str(root).concat(self.path.as_str())
    }

    /// The headers that sign the request when it is made at `timestamp`: none
    /// for a public request; for a private one the signature covers the
    /// timestamp, the method and the path, with an empty body, and is `None`
    /// only where secret or text are over the signer's limit.
    pub fn auth_headers(&self, api_key: &str, api_secret: &str, timestamp: &str) -> (r: Option<
        AuthHeaders,
    >)
        ensures
            self.endpoint == Endpoint::Public ==> r is None,
            self.endpoint == Endpoint::Private ==> {
                &&& r is Some <==> signable(
                    api_secret@,
                    signed_text(timestamp@, METHOD@, self.path@, Seq::empty()),
                )
                &&& r matches Some(h) ==> {
                    &&& h.api_key@ == api_key@
                    &&& h.api_timestamp@ == timestamp@
                    &&& h.api_sign@ == signature_spec(
                        api_secret@,
                        signed_text(timestamp@, METHOD@, self.path@, Seq::empty()),
                    )
                }
            },
    {
        match self.endpoint {
            Endpoint::Public => None,
            Endpoint::Private => {
                proof {
                    reveal_strlit("");
                    assert(""@ =~= Seq::<char>::empty());
                }
                create_auth_headers(api_key, api_secret, timestamp, METHOD, self.path.as_str(), "")
            },
        }
    }
}

} // verus!
