//! The records of matches, and their rendering as lines of text.

use crate::number::{decimal, decimal_chars};
use crate::text::{append_chars, append_str, chars_of, string_of, views};
use vstd::prelude::*;

verus! {

/// A path found in directory mode.
#[derive(Clone, Debug)]
pub struct DirResult {
    pub path: String,
    pub status: u16,
    pub size: usize,
    pub redirect: Option<String>,
}

/// A name found in DNS mode, with its addresses as text.
#[derive(Clone, Debug)]
pub struct DnsResultJson {
    pub subdomain: String,
    pub ips: Vec<String>,
    pub cnames: Vec<String>,
}

/// A host found in virtual-host mode.
#[derive(Clone, Debug)]
pub struct VhostResult {
    pub host: String,
    pub status: u16,
    pub size: usize,
}

/// A payload that matched in fuzz mode.
#[derive(Clone, Debug)]
pub struct FuzzResult {
    pub payload: String,
    pub status: u16,
    pub size: usize,
    pub words: usize,
    pub lines: usize,
}

/// A bucket found in bucket mode, with the object keys it lists.
#[derive(Clone, Debug)]
pub struct BucketResult {
    pub name: String,
    pub status: String,
    pub files: Vec<String>,
}

/// The record of one match, in the shape of its mode.
#[derive(Clone, Debug)]
pub enum OutputRecord {
    Dir(DirResult),
    Dns(DnsResultJson),
    Vhost(VhostResult),
    Fuzz(FuzzResult),
    Bucket(BucketResult),
    Tftp(String),
}

/// `parts` with `sep` between each two of them.
pub open spec fn joined(parts: Seq<Seq<char>>, sep: Seq<char>) -> Seq<char>
    decreases parts.len(),
{
    if parts.len() == 0 {
        Seq::empty()
    } else if parts.len() == 1 {
        parts[0]
    } else {
        joined(parts.drop_last(), sep) + sep + parts.last()
    }
}

/// The line of a path with status and size.
pub open spec fn status_line(subject: Seq<char>, status: nat, size: nat) -> Seq<char> {
    subject + " (Status: "@ + decimal(status) + ") [Size: "@ + decimal(size) + "]"@
}

/// The line of a name with its addresses.
pub open spec fn dns_line(subdomain: Seq<char>, ips: Seq<Seq<char>>) -> Seq<char> {
    subdomain + " ["@ + joined(ips, ", "@) + "]"@
}

/// The line of a payload with the measures of its response.
pub open spec fn fuzz_line(payload: Seq<char>, status: nat, size: nat, words: nat, lines: nat) -> Seq<
    char,
> {
    payload + " [Status: "@ + decimal(status) + ", Size: "@ + decimal(size) + ", Words: "@
        + decimal(words) + ", Lines: "@ + decimal(lines) + "]"@
}

/// The line of a bucket with its status and the number of keys listed.
pub open spec fn bucket_line(name: Seq<char>, status: Seq<char>, files: nat) -> Seq<char> {
    name + " ["@ + status + "] files: "@ + decimal(files)
}

impl OutputRecord {
    /// The line that stands for this record in a text file.
    pub open spec fn line_model(self) -> Seq<char> {
        match self {
            OutputRecord::Dir(r) => status_line(r.path@, r.status as nat, r.size as nat),
            OutputRecord::Dns(r) => dns_line(r.subdomain@, views(r.ips@)),
            OutputRecord::Vhost(r) => status_line(r.host@, r.status as nat, r.size as nat),
            OutputRecord::Fuzz(r) => fuzz_line(
                r.payload@,
                r.status as nat,
                r.size as nat,
                r.words as nat,
                r.lines as nat,
            ),
            OutputRecord::Bucket(r) => bucket_line(r.name@, r.status@, r.files@.len()),
            OutputRecord::Tftp(name) => name@,
        }
    }

    /// The line that stands for this record in a text file.
    pub fn line(&self) -> (text: String)
        ensures
            text@ == self.line_model(),
    {
        match self {
            OutputRecord::Dir(r) => status_line_of(r.path.as_str(), r.status, r.size),
            OutputRecord::Vhost(r) => status_line_of(r.host.as_str(), r.status, r.size),
            OutputRecord::Dns(r) => {
                let mut v = chars_of(r.subdomain.as_str());
                append_str(&mut v, " [");
                let list = join(&r.ips, ", ");
                append_chars(&mut v, &list);
                append_str(&mut v, "]");
                string_of(&v)
            },
            OutputRecord::Fuzz(r) => {
                let mut v = chars_of(r.payload.as_str());
                append_str(&mut v, " [Status: ");
                append_chars(&mut v, &decimal_chars(r.status as u64));
                append_str(&mut v, ", Size: ");
                append_chars(&mut v, &decimal_chars(r.size as u64));
                append_str(&mut v, ", Words: ");
                append_chars(&mut v, &decimal_chars(r.words as u64));
                append_str(&mut v, ", Lines: ");
                append_chars(&mut v, &decimal_chars(r.lines as u64));
                append_str(&mut v, "]");
                string_of(&v)
            },
            OutputRecord::Bucket(r) => {
                let mut v = chars_of(r.name.as_str());
                append_str(&mut v, " [");
                append_str(&mut v, r.status.as_str());
                append_str(&mut v, "] files: ");
                append_chars(&mut v, &decimal_chars(r.files.len() as u64));
                string_of(&v)
            },
            OutputRecord::Tftp(name) => name.clone(),
        }
    }
}

/// The line of `subject` with `status` and `size`.
pub fn status_line_of(subject: &str, status: u16, size: usize) -> (text: String)
    ensures
        text@ == status_line(subject@, status as nat, size as nat),
{
    let mut v = chars_of(subject);
    append_str(&mut v, " (Status: ");
    append_chars(&mut v, &decimal_chars(status as u64));
    append_str(&mut v, ") [Size: ");
    append_chars(&mut v, &decimal_chars(size as u64));
    append_str(&mut v, "]");
    string_of(&v)
}

/// The characters of `parts` with `sep` between each two of them.
pub fn join(parts: &Vec<String>, sep: &str) -> (v: Vec<char>)
    ensures
        v@ == joined(views(parts@), sep@),
{
    let mut v: Vec<char> = Vec::new();
    let mut i: usize = 0;
    let ghost ps = views(parts@);
    proof {
        assert(ps.subrange(0, 0) == Seq::<Seq<char>>::empty());
    }
    while i < parts.len()
        invariant
            i <= parts@.len(),
            ps == views(parts@),
            v@ == joined(ps.subrange(0, i as int), sep@),
        decreases parts@.len() - i,
    {
        proof {
            let next = ps.subrange(0, i + 1);
            assert(next.drop_last() == ps.subrange(0, i as int));
            assert(next.last() == parts@[i as int]@);
            if i == 0 {
                assert(next[0] == parts@[0]@);
            }
        }
        if i > 0 {
            append_str(&mut v, sep);
        }
        append_str(&mut v, parts[i].as_str());
        proof {
            if i == 0 {
                assert(Seq::<char>::empty() + parts@[0]@ == parts@[0]@);
            }
        }
        i += 1;
    }
    proof {
        assert(ps.subrange(0, ps.len() as int) == ps);
    }
    v
}

} // verus!
