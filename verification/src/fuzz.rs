//! Fuzz mode: the check that the keyword is there to replace, and the
//! request that a payload makes.

use crate::args::FuzzArgs;
use crate::candidate::optional_view;
use crate::error::RbusterError;
use crate::http::{
    fuzz_keyword, has_keyword, header_views, headers_of, is_method_token, parse_headers,
    request_method, substitute, substituted,
};
use crate::search::contains;
use crate::text::views;
use vstd::prelude::*;

verus! {

/// One HTTP request, ready to send.
#[derive(Clone, Debug)]
pub struct FuzzRequest {
    pub method: String,
    pub url: String,
    pub headers: Vec<(String, String)>,
    pub body: Option<String>,
}

/// Whether the keyword stands in one of `texts`.
pub open spec fn any_has_keyword(texts: Seq<Seq<char>>) -> bool {
    exists|i: int| 0 <= i < texts.len() && contains(#[trigger] texts[i], fuzz_keyword())
}

/// Whether the keyword stands in the URL, in a header or in the body.
pub open spec fn keyword_present(
    url: Seq<char>,
    headers: Seq<Seq<char>>,
    data: Option<Seq<char>>,
) -> bool {
    ||| contains(url, fuzz_keyword())
    ||| any_has_keyword(headers)
    ||| (data matches Some(body) && contains(body, fuzz_keyword()))
}

/// Checks that there is a keyword to replace. Without one in URL, headers
/// or body the run cannot start.
pub fn validate(args: &FuzzArgs) -> (r: Result<(), RbusterError>)
    ensures
        r is Ok <==> keyword_present(args.url@, views(args.http.headers@), optional_view(args.data)),
        r matches Err(e) ==> e matches RbusterError::ConfigError(text) && text@
            == "FUZZ keyword not found in URL, headers, or data"@,
{
    let ghost hs = views(args.http.headers@);
    if has_keyword(args.url.as_str()) {
        return Ok(());
    }
    let mut i: usize = 0;
    while i < args.http.headers.len()
        invariant
            i <= args.http.headers@.len(),
            hs == views(args.http.headers@),
            forall|j: int| 0 <= j < i ==> !contains(#[trigger] hs[j], fuzz_keyword()),
        decreases args.http.headers@.len() - i,
    {
        if has_keyword(args.http.headers[i].as_str()) {
            proof {
                assert(contains(hs[i as int], fuzz_keyword()));
            }
            return Ok(());
        }
        i += 1;
    }
    let in_data = match &args.data {
        Some(body) => has_keyword(body.as_str()),
        None => false,
    };
    if in_data {
        Ok(())
    } else {
        Err(RbusterError::ConfigError("FUZZ keyword not found in URL, headers, or data".to_owned()))
    }
}

/// Each of `raw` with the payload in place of the keyword.
pub open spec fn substituted_all(raw: Seq<Seq<char>>, payload: Seq<char>) -> Seq<Seq<char>> {
    raw.map_values(|h: Seq<char>| substituted(h, payload))
}

/// The headers of the request of `payload`: the configured headers with
/// the payload put in, then the cookies with the payload put in, then the
/// content type of a form if a body is posted.
pub open spec fn request_headers(
    raw: Seq<Seq<char>>,
    cookies: Option<Seq<char>>,
    posts_form: bool,
    payload: Seq<char>,
) -> Seq<(Seq<char>, Seq<char>)> {
    let configured = headers_of(substituted_all(raw, payload));
    let with_cookies = match cookies {
        Some(c) => configured.push(("Cookie"@, substituted(c, payload))),
        None => configured,
    };
    if posts_form {
        with_cookies.push(("Content-Type"@, "application/x-www-form-urlencoded"@))
    } else {
        with_cookies
    }
}

/// Whether the request posts a form: it has a body, and the configured
/// method is `POST`.
pub open spec fn posts_form(method: Seq<char>, data: Option<Seq<char>>) -> bool {
    data is Some && method == "POST"@
}

/// The request that probes `payload`: the payload stands in place of the
/// keyword in URL, headers, cookies and body, and the method falls back to
/// `GET` where the configured one is no HTTP method.
pub fn fuzz_request(args: &FuzzArgs, payload: &str) -> (request: FuzzRequest)
    ensures
        request.method@ == if is_method_token(args.http.method@) {
            args.http.method@
        } else {
            "GET"@
        },
        request.url@ == substituted(args.url@, payload@),
        header_views(request.headers@) == request_headers(
            views(args.http.headers@),
            optional_view(args.http.cookies),
            posts_form(args.http.method@, optional_view(args.data)),
            payload@,
        ),
        optional_view(request.body) == match args.data {
            Some(body) => Some(substituted(body@, payload@)),
            None => None,
        },
{
    let method = request_method(args.http.method.as_str());
    let url = substitute(args.url.as_str(), payload);
    let mut replaced: Vec<String> = Vec::new();
    let mut i: usize = 0;
    while i < args.http.headers.len()
        invariant
            i <= args.http.headers@.len(),
            replaced@.len() == i,
            forall|j: int|
                0 <= j < i ==> (#[trigger] replaced@[j])@ == substituted(
                    args.http.headers@[j]@,
                    payload@,
                ),
        decreases args.http.headers@.len() - i,
    {
        replaced.push(substitute(args.http.headers[i].as_str(), payload));
        i += 1;
    }
    proof {
        assert(views(replaced@) =~= substituted_all(views(args.http.headers@), payload@));
    }
    let mut headers = parse_headers(&replaced);
    match &args.http.cookies {
        Some(c) => {
            let ghost before = header_views(headers@);
            let value = substitute(c.as_str(), payload);
            headers.push(("Cookie".to_owned(), value));
            proof {
                assert(header_views(headers@) =~= before.push(
                    ("Cookie"@, substituted(c@, payload@)),
                ));
            }
        },
        None => {},
    }
    let body = match &args.data {
        Some(d) => Some(substitute(d.as_str(), payload)),
        None => None,
    };
    let post = "POST".to_owned();
    if body.is_some() && args.http.method == post {
        let ghost before = header_views(headers@);
        headers.push(("Content-Type".to_owned(), "application/x-www-form-urlencoded".to_owned()));
        proof {
            assert(header_views(headers@) =~= before.push(
                ("Content-Type"@, "application/x-www-form-urlencoded"@),
            ));
        }
    }
    FuzzRequest { method, url, headers, body }
}

} // verus!
