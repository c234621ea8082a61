//! HTTP requests as values: the method that is sent, headers read from
//! `Name: value` strings, and the request of a fuzz payload.

use crate::list::slice_chars;
use crate::search::{contains, find, find_char, lemma_find_char, replace, replace_chars};
use crate::text::{chars_of, string_of, string_of_range, trim, trim_bounds};
use vstd::prelude::*;

verus! {

/// Whether `c` may stand in an HTTP token: a letter, a digit, or one of
/// `` !#$%&'*+-.^_`|~ ``.
pub open spec fn is_tchar(c: char) -> bool {
    ||| 'a' <= c <= 'z'
    ||| 'A' <= c <= 'Z'
    ||| '0' <= c <= '9'
    ||| c == '!'
    ||| c == '#'
    ||| c == '$'
    ||| c == '%'
    ||| c == '&'
    ||| c == '\''
    ||| c == '*'
    ||| c == '+'
    ||| c == '-'
    ||| c == '.'
    ||| c == '^'
    ||| c == '_'
    ||| c == '`'
    ||| c == '|'
    ||| c == '~'
}

/// Whether `s` is an HTTP method: a token of at least one character.
pub open spec fn is_method_token(s: Seq<char>) -> bool {
    s.len() > 0 && forall|i: int| 0 <= i < s.len() ==> is_tchar(#[trigger] s[i])
}

/// Parses an HTTP method (`reqwest::Method::from_bytes`) and gives its
/// text back. The method is accepted if and only if it is a token of at
/// least one character, and its text is then the text given.
#[verifier::external_body]
fn parse_method(name: &str) -> (method: Option<String>)
    ensures
        match method {
            Some(text) => is_method_token(name@) && text@ == name@,
            None => !is_method_token(name@),
        },
{
    match reqwest::Method::from_bytes(name.as_bytes()) {
        Ok(method) => Some(method.as_str().to_owned()),
        Err(_) => None,
    }
}

/// The method that a request is sent with: `name` if it is an HTTP method,
/// else `GET`.
pub fn request_method(name: &str) -> (method: String)
    ensures
        method@ == if is_method_token(name@) {
            name@
        } else {
            "GET"@
        },
{
    match parse_method(name) {
        Some(method) => method,
        None => "GET".to_owned(),
    }
}

/// Name and value of the header `raw`: what stands before and behind its
/// first colon, both trimmed. A string without a colon is no header.
pub open spec fn header_of(raw: Seq<char>) -> Option<(Seq<char>, Seq<char>)> {
    let i = find_char(raw, ':');
    if 0 <= i < raw.len() {
        Some((trim(raw.subrange(0, i)), trim(raw.subrange(i + 1, raw.len() as int))))
    } else {
        None
    }
}

/// Reads the header `raw`.
pub fn parse_header_chars(raw: &Vec<char>) -> (header: Option<(String, String)>)
    ensures
        match header_of(raw@) {
            Some(pair) => header matches Some(h) && h.0@ == pair.0 && h.1@ == pair.1,
            None => header is None,
        },
{
    let n = raw.len();
    let mut i: usize = 0;
    while i < n && raw[i] != ':'
        invariant
            i <= n == raw@.len(),
            forall|j: int| 0 <= j < i ==> raw@[j] != ':',
        decreases n - i,
    {
        i += 1;
    }
    proof {
        lemma_find_char(raw@, ':', i as int);
    }
    if i == n {
        return None;
    }
    let name = slice_chars(raw, 0, i);
    let value = slice_chars(raw, i + 1, n);
    let (a, b) = trim_bounds(&name);
    let (c, d) = trim_bounds(&value);
    Some((string_of_range(&name, a, b), string_of_range(&value, c, d)))
}

/// Reads the header `raw`.
pub fn parse_header(raw: &str) -> (header: Option<(String, String)>)
    ensures
        match header_of(raw@) {
            Some(pair) => header matches Some(h) && h.0@ == pair.0 && h.1@ == pair.1,
            None => header is None,
        },
{
    let v = chars_of(raw);
    parse_header_chars(&v)
}

/// The headers among `raw`, in order.
pub open spec fn headers_of(raw: Seq<Seq<char>>) -> Seq<(Seq<char>, Seq<char>)>
    decreases raw.len(),
{
    if raw.len() == 0 {
        Seq::empty()
    } else {
        let head = headers_of(raw.drop_last());
        match header_of(raw.last()) {
            Some(pair) => head.push(pair),
            None => head,
        }
    }
}

/// Names and values of the headers `v`.
pub open spec fn header_views(v: Seq<(String, String)>) -> Seq<(Seq<char>, Seq<char>)> {
    v.map_values(|h: (String, String)| (h.0@, h.1@))
}

/// Reads the headers `raw`. Strings without a colon are passed over.
pub fn parse_headers(raw: &Vec<String>) -> (headers: Vec<(String, String)>)
    ensures
        header_views(headers@) == headers_of(crate::text::views(raw@)),
{
    let ghost rs = crate::text::views(raw@);
    let mut out: Vec<(String, String)> = Vec::new();
    let mut i: usize = 0;
    proof {
        assert(rs.subrange(0, 0) == Seq::<Seq<char>>::empty());
        assert(header_views(out@) =~= Seq::<(Seq<char>, Seq<char>)>::empty());
    }
    while i < raw.len()
        invariant
            i <= raw@.len(),
            rs == crate::text::views(raw@),
            header_views(out@) == headers_of(rs.subrange(0, i as int)),
        decreases raw@.len() - i,
    {
        proof {
            let next = rs.subrange(0, i + 1);
            assert(next.drop_last() == rs.subrange(0, i as int));
            assert(next.last() == raw@[i as int]@);
        }
        let ghost before = header_views(out@);
        match parse_header(raw[i].as_str()) {
            Some(h) => {
                let ghost pair = (h.0@, h.1@);
                out.push(h);
                proof {
                    assert(header_views(out@) =~= before.push(pair));
                }
            },
            None => {},
        }
        i += 1;
    }
    proof {
        assert(rs.subrange(0, rs.len() as int) == rs);
    }
    out
}

/// The keyword that a fuzz payload is put in place of.
pub open spec fn fuzz_keyword() -> Seq<char> {
    seq!['F', 'U', 'Z', 'Z']
}

/// The characters of the fuzz keyword.
pub fn keyword_chars() -> (k: Vec<char>)
    ensures
        k@ == fuzz_keyword(),
{
    let k = chars_of("FUZZ");
    proof {
        reveal_strlit("FUZZ");
        assert(k@ =~= fuzz_keyword());
    }
    k
}

/// `template` with every occurrence of the keyword replaced by `payload`.
pub open spec fn substituted(template: Seq<char>, payload: Seq<char>) -> Seq<char> {
    replace(template, fuzz_keyword(), payload)
}

/// Puts `payload` in place of the keyword in `template`.
pub fn substitute(template: &str, payload: &str) -> (text: String)
    ensures
        text@ == substituted(template@, payload@),
{
    let t = chars_of(template);
    let p = chars_of(payload);
    let k = keyword_chars();
    let r = replace_chars(&t, &k, &p);
    string_of(&r)
}

/// Whether the keyword stands in `text`.
pub fn has_keyword(text: &str) -> (b: bool)
    ensures
        b == contains(text@, fuzz_keyword()),
{
    let t = chars_of(text);
    let k = keyword_chars();
    find(&t, &k).is_some()
}

} // verus!
