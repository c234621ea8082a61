//! The candidate generator: from the words of a word list to the concrete
//! values that a mode probes.

use crate::search::{strip_leading, strip_leading_len, strip_trailing, strip_trailing_len};
use crate::text::{append_chars, chars_of, string_of, views};
use vstd::prelude::*;

verus! {

/// One concrete value to probe, with an optional tag that says which
/// variant of its word it is.
#[derive(Clone, Debug)]
pub struct Candidate {
    pub value: String,
    pub tag: Option<String>,
}

/// A candidate as character sequences.
pub struct CandidateModel {
    pub value: Seq<char>,
    pub tag: Option<Seq<char>>,
}

impl View for Candidate {
    type V = CandidateModel;

    open spec fn view(&self) -> CandidateModel {
        CandidateModel {
            value: self.value@,
            tag: match self.tag {
                Some(t) => Some(t@),
                None => None,
            },
        }
    }
}

/// The models of the candidates `v`.
pub open spec fn models(v: Seq<Candidate>) -> Seq<CandidateModel> {
    v.map_values(|c: Candidate| c@)
}

/// A candidate without a tag.
pub open spec fn plain(value: Seq<char>) -> CandidateModel {
    CandidateModel { value, tag: None }
}

/// The base URL of a directory run: the target without trailing slashes.
pub open spec fn base_url(url: Seq<char>) -> Seq<char> {
    strip_trailing(url, '/')
}

/// The path of a word: the word itself if it begins with a slash, else
/// the word behind a slash.
pub open spec fn dir_path(word: Seq<char>) -> Seq<char> {
    if word.len() > 0 && word[0] == '/' {
        word
    } else {
        seq!['/'] + word
    }
}

/// A path with an extension, which is given a leading dot if it has none.
pub open spec fn ext_path(path: Seq<char>, ext: Seq<char>) -> Seq<char> {
    if ext.len() > 0 && ext[0] == '.' {
        path + ext
    } else {
        path + seq!['.'] + ext
    }
}

/// Whether `path` ends in a slash.
pub open spec fn ends_in_slash(path: Seq<char>) -> bool {
    path.len() > 0 && path.last() == '/'
}

/// Whether the slash-suffixed variant of `path` is generated: it is asked
/// for, and the path does not end in a slash already.
pub open spec fn wants_slash(path: Seq<char>, add_slash: bool) -> bool {
    add_slash && !ends_in_slash(path)
}

/// The tag of a slash-suffixed variant: the tag of the path it is made
/// from, followed by a slash.
pub open spec fn slash_tag(tag: Option<Seq<char>>) -> Seq<char> {
    match tag {
        Some(t) => t + seq!['/'],
        None => seq!['/'],
    }
}

/// The candidates of one path: the path itself, and behind it its
/// slash-suffixed variant if that is generated.
pub open spec fn variant_candidates(
    base: Seq<char>,
    path: Seq<char>,
    tag: Option<Seq<char>>,
    add_slash: bool,
) -> Seq<CandidateModel> {
    if wants_slash(path, add_slash) {
        seq![
            CandidateModel { value: base + path, tag },
            CandidateModel { value: base + path + seq!['/'], tag: Some(slash_tag(tag)) },
        ]
    } else {
        seq![CandidateModel { value: base + path, tag }]
    }
}

/// The candidates of `path` with each of `exts`, in order, each tagged with
/// its extension.
pub open spec fn ext_candidates(
    base: Seq<char>,
    path: Seq<char>,
    exts: Seq<Seq<char>>,
    add_slash: bool,
) -> Seq<CandidateModel>
    decreases exts.len(),
{
    if exts.len() == 0 {
        Seq::empty()
    } else {
        ext_candidates(base, path, exts.drop_last(), add_slash) + variant_candidates(
            base,
            ext_path(path, exts.last()),
            Some(exts.last()),
            add_slash,
        )
    }
}

/// The candidates of one word in directory mode: its path and the path
/// with each extension, each followed by its slash-suffixed variant if
/// that is generated.
pub open spec fn word_candidates(
    base: Seq<char>,
    word: Seq<char>,
    exts: Seq<Seq<char>>,
    add_slash: bool,
) -> Seq<CandidateModel> {
    let path = dir_path(word);
    variant_candidates(base, path, None, add_slash) + ext_candidates(base, path, exts, add_slash)
}

/// The candidates of directory mode: those of each word, in the order of
/// the words.
pub open spec fn dir_candidates(
    base: Seq<char>,
    words: Seq<Seq<char>>,
    exts: Seq<Seq<char>>,
    add_slash: bool,
) -> Seq<CandidateModel>
    decreases words.len(),
{
    if words.len() == 0 {
        Seq::empty()
    } else {
        dir_candidates(base, words.drop_last(), exts, add_slash) + word_candidates(
            base,
            words.last(),
            exts,
            add_slash,
        )
    }
}

/// Whether the path of `word` does not end in a slash: the word is not
/// empty and does not end in one.
pub open spec fn word_is_open(word: Seq<char>) -> bool {
    word.len() > 0 && word.last() != '/'
}

/// Whether a path with the extension `ext` does not end in a slash.
pub open spec fn ext_is_open(ext: Seq<char>) -> bool {
    !ends_in_slash(ext)
}

/// How many of `words` have a path that does not end in a slash.
pub open spec fn open_words(words: Seq<Seq<char>>) -> nat
    decreases words.len(),
{
    if words.len() == 0 {
        0
    } else {
        open_words(words.drop_last()) + if word_is_open(words.last()) {
            1nat
        } else {
            0nat
        }
    }
}

/// How many of `exts` do not end in a slash.
pub open spec fn open_exts(exts: Seq<Seq<char>>) -> nat
    decreases exts.len(),
{
    if exts.len() == 0 {
        0
    } else {
        open_exts(exts.drop_last()) + if ext_is_open(exts.last()) {
            1nat
        } else {
            0nat
        }
    }
}

/// The number of candidates of a directory run, known before any is
/// generated: one path and one variant per extension for each word, and
/// with slash variants one more for each of these that does not end in a
/// slash.
pub open spec fn dir_candidate_count(
    words: Seq<Seq<char>>,
    exts: Seq<Seq<char>>,
    add_slash: bool,
) -> nat {
    words.len() * (exts.len() + 1) + if add_slash {
        open_words(words) + words.len() * open_exts(exts)
    } else {
        0
    }
}

/// The closed form of the number of candidates: one path and one variant
/// per extension for each word, doubled if the slash-suffixed variants are
/// asked for.
pub open spec fn candidate_total(words: nat, extensions: nat, add_slash: bool) -> nat {
    words * (extensions + 1) * (if add_slash {
        2nat
    } else {
        1nat
    })
}

/// The path of a word ends in a slash exactly if the word is empty or ends
/// in one.
pub proof fn lemma_path_open(word: Seq<char>)
    ensures
        ends_in_slash(dir_path(word)) == !word_is_open(word),
{
    let path = dir_path(word);
    if word.len() > 0 && word[0] != '/' {
        assert(path.last() == word.last());
    }
}

/// A path with an extension ends in a slash exactly if the extension does.
pub proof fn lemma_ext_open(path: Seq<char>, ext: Seq<char>)
    ensures
        ends_in_slash(ext_path(path, ext)) == !ext_is_open(ext),
{
    let full = ext_path(path, ext);
    if ext.len() > 0 {
        assert(full.last() == ext.last());
    } else {
        assert(full.last() == '.');
    }
}

/// Where every word and every extension is open, all of them count.
pub proof fn lemma_all_open(items: Seq<Seq<char>>)
    ensures
        (forall|i: int| 0 <= i < items.len() ==> word_is_open(#[trigger] items[i])) ==> open_words(
            items,
        ) == items.len(),
        (forall|i: int| 0 <= i < items.len() ==> ext_is_open(#[trigger] items[i])) ==> open_exts(
            items,
        ) == items.len(),
    decreases items.len(),
{
    if items.len() > 0 {
        let init = items.drop_last();
        lemma_all_open(init);
        assert(forall|i: int| 0 <= i < init.len() ==> init[i] == items[i]);
        if forall|i: int| 0 <= i < items.len() ==> word_is_open(#[trigger] items[i]) {
            assert(word_is_open(items[items.len() - 1]));
            assert forall|i: int| 0 <= i < init.len() implies word_is_open(#[trigger] init[i]) by {
                assert(word_is_open(items[i]));
            }
        }
        if forall|i: int| 0 <= i < items.len() ==> ext_is_open(#[trigger] items[i]) {
            assert(ext_is_open(items[items.len() - 1]));
            assert forall|i: int| 0 <= i < init.len() implies ext_is_open(#[trigger] init[i]) by {
                assert(ext_is_open(items[i]));
            }
        }
    }
}

/// The extension variants of one path number one per extension, and with
/// slash variants one more per open extension.
pub proof fn lemma_ext_candidates_len(
    base: Seq<char>,
    path: Seq<char>,
    exts: Seq<Seq<char>>,
    add_slash: bool,
)
    ensures
        ext_candidates(base, path, exts, add_slash).len() == exts.len() + if add_slash {
            open_exts(exts)
        } else {
            0
        },
    decreases exts.len(),
{
    if exts.len() > 0 {
        lemma_ext_candidates_len(base, path, exts.drop_last(), add_slash);
        lemma_ext_open(path, exts.last());
    }
}

/// The generator gives exactly as many candidates as were counted before.
pub proof fn lemma_dir_candidates_len(
    base: Seq<char>,
    words: Seq<Seq<char>>,
    exts: Seq<Seq<char>>,
    add_slash: bool,
)
    ensures
        dir_candidates(base, words, exts, add_slash).len() == dir_candidate_count(
            words,
            exts,
            add_slash,
        ),
    decreases words.len(),
{
    let w = words.len() as int;
    let e = exts.len() as int;
    let s = open_exts(exts) as int;
    if words.len() > 0 {
        let init = words.drop_last();
        lemma_dir_candidates_len(base, init, exts, add_slash);
        lemma_ext_candidates_len(base, dir_path(words.last()), exts, add_slash);
        lemma_path_open(words.last());
        assert((w - 1) * (e + 1) + (e + 1) == w * (e + 1)) by (nonlinear_arith);
        assert((w - 1) * s + s == w * s) by (nonlinear_arith);
    } else {
        assert(w * (e + 1) == 0 && w * s == 0) by (nonlinear_arith)
            requires
                w == 0,
        ;
    }
}

/// The closed form. Without slash-suffixed variants the generator gives
/// exactly `W * (E + 1)` candidates for `W` words and `E` extensions. With
/// them it gives exactly twice as many, where no word is empty and neither
/// word nor extension ends in a slash.
pub proof fn lemma_dir_candidate_count(
    base: Seq<char>,
    words: Seq<Seq<char>>,
    exts: Seq<Seq<char>>,
    add_slash: bool,
)
    requires
        add_slash ==> forall|i: int| 0 <= i < words.len() ==> word_is_open(#[trigger] words[i]),
        add_slash ==> forall|i: int| 0 <= i < exts.len() ==> ext_is_open(#[trigger] exts[i]),
    ensures
        dir_candidates(base, words, exts, add_slash).len() == candidate_total(
            words.len(),
            exts.len(),
            add_slash,
        ),
{
    let w = words.len() as int;
    let e = exts.len() as int;
    lemma_dir_candidates_len(base, words, exts, add_slash);
    lemma_all_open(words);
    lemma_all_open(exts);
    assert(w * (e + 1) * 1 == w * (e + 1)) by (nonlinear_arith);
    assert(w * (e + 1) + (w + w * e) == w * (e + 1) * 2) by (nonlinear_arith);
}

/// A count, capped at the largest number of 64 bits.
pub open spec fn capped(n: nat) -> nat {
    if n <= u64::MAX {
        n
    } else {
        u64::MAX as nat
    }
}

/// Whether the string `s` ends in a slash.
fn str_ends_in_slash(s: &str) -> (b: bool)
    ensures
        b == ends_in_slash(s@),
{
    let v = chars_of(s);
    v.len() > 0 && v[v.len() - 1] == '/'
}

/// The progress total of a directory run: the number of candidates that
/// `generate_dir` gives for these words and extensions, counted without
/// generating them. A total beyond 64 bits is capped.
pub fn total_requests(words: &Vec<String>, extensions: &Vec<String>, add_slash: bool) -> (total: u64)
    ensures
        total == capped(dir_candidate_count(views(words@), views(extensions@), add_slash)),
{
    let ghost ws = views(words@);
    let ghost es = views(extensions@);
    let w = words.len();
    let e = extensions.len();
    assert(w * (e + 1) <= 0xffff_ffff_ffff_ffff * 0x1_0000_0000_0000_0000) by (nonlinear_arith)
        requires
            w <= 0xffff_ffff_ffff_ffff,
            e + 1 <= 0x1_0000_0000_0000_0000,
    ;
    let plain_count: u128 = (w as u128) * (e as u128 + 1);
    if plain_count > u64::MAX as u128 {
        return u64::MAX;
    }
    if !add_slash {
        return plain_count as u64;
    }
    let mut open_e: usize = 0;
    let mut k: usize = 0;
    proof {
        assert(es.subrange(0, 0) == Seq::<Seq<char>>::empty());
    }
    while k < e
        invariant
            k <= e == extensions@.len(),
            es == views(extensions@),
            open_e == open_exts(es.subrange(0, k as int)),
            open_e <= k,
        decreases e - k,
    {
        proof {
            let next = es.subrange(0, k + 1);
            assert(next.drop_last() == es.subrange(0, k as int));
            assert(next.last() == extensions@[k as int]@);
        }
        if !str_ends_in_slash(extensions[k].as_str()) {
            open_e += 1;
        }
        k += 1;
    }
    let mut open_w: usize = 0;
    let mut i: usize = 0;
    proof {
        assert(es.subrange(0, e as int) == es);
        assert(ws.subrange(0, 0) == Seq::<Seq<char>>::empty());
    }
    while i < w
        invariant
            i <= w == words@.len(),
            ws == views(words@),
            open_w == open_words(ws.subrange(0, i as int)),
            open_w <= i,
        decreases w - i,
    {
        proof {
            let next = ws.subrange(0, i + 1);
            assert(next.drop_last() == ws.subrange(0, i as int));
            assert(next.last() == words@[i as int]@);
        }
        let word = chars_of(words[i].as_str());
        if word.len() > 0 && word[word.len() - 1] != '/' {
            open_w += 1;
        }
        i += 1;
    }
    proof {
        assert(ws.subrange(0, w as int) == ws);
        assert(w * open_e <= w * e) by (nonlinear_arith)
            requires
                open_e <= e,
        ;
        assert(w * e + w == w * (e + 1)) by (nonlinear_arith);
    }
    let slashed: u128 = (open_w as u128) + (w as u128) * (open_e as u128);
    let all: u128 = plain_count + slashed;
    if all > u64::MAX as u128 {
        u64::MAX
    } else {
        all as u64
    }
}

/// The characters of the base URL of `url`.
pub fn base_url_chars(url: &str) -> (base: Vec<char>)
    ensures
        base@ == base_url(url@),
{
    let full = chars_of(url);
    let keep = strip_trailing_len(&full, '/');
    crate::list::slice_chars(&full, 0, keep)
}

/// The characters of the path of `word`.
pub fn dir_path_chars(word: &str) -> (path: Vec<char>)
    ensures
        path@ == dir_path(word@),
{
    let w = chars_of(word);
    if w.len() > 0 && w[0] == '/' {
        w
    } else {
        let mut path: Vec<char> = Vec::new();
        path.push('/');
        append_chars(&mut path, &w);
        assert(path@ == seq!['/'] + w@);
        path
    }
}

/// Appends the candidates of one path to `out`.
fn push_variants(
    out: &mut Vec<Candidate>,
    base: &Vec<char>,
    path: &Vec<char>,
    tag: Option<String>,
    add_slash: bool,
)
    ensures
        models(final(out)@) == models(old(out)@) + variant_candidates(
            base@,
            path@,
            optional_view(tag),
            add_slash,
        ),
{
    let ghost before = models(out@);
    let ghost t = optional_view(tag);
    let mut value = base.clone();
    append_chars(&mut value, path);
    let slashed = if add_slash && !(path.len() > 0 && path[path.len() - 1] == '/') {
        let mut tag_chars = match &tag {
            Some(text) => chars_of(text.as_str()),
            None => Vec::new(),
        };
        tag_chars.push('/');
        proof {
            assert(tag_chars@ =~= slash_tag(t));
        }
        Some(string_of(&tag_chars))
    } else {
        None
    };
    out.push(Candidate { value: string_of(&value), tag });
    proof {
        assert(models(out@) =~= before.push(CandidateModel { value: base@ + path@, tag: t }));
    }
    match slashed {
        Some(slash) => {
            value.push('/');
            let ghost mid = models(out@);
            out.push(Candidate { value: string_of(&value), tag: Some(slash) });
            proof {
                assert(value@ =~= base@ + path@ + seq!['/']);
                assert(models(out@) =~= mid.push(
                    CandidateModel {
                        value: base@ + path@ + seq!['/'],
                        tag: Some(slash_tag(t)),
                    },
                ));
                assert(models(out@) =~= before + variant_candidates(base@, path@, t, add_slash));
            }
        },
        None => {
            proof {
                assert(models(out@) =~= before + variant_candidates(base@, path@, t, add_slash));
            }
        },
    }
}

/// The candidates of a directory run on `url`. There are exactly as many
/// as `total_requests` counts for the same words and extensions, so the
/// progress total is the number of probes.
pub fn generate_dir(url: &str, words: &Vec<String>, extensions: &Vec<String>, add_slash: bool) -> (out:
    Vec<Candidate>)
    ensures
        models(out@) == dir_candidates(base_url(url@), views(words@), views(extensions@), add_slash),
        out@.len() == dir_candidate_count(views(words@), views(extensions@), add_slash),
        out@.len() == capped(dir_candidate_count(views(words@), views(extensions@), add_slash)),
        !add_slash ==> out@.len() == words@.len() * (extensions@.len() + 1),
{
    let base = base_url_chars(url);
    let ghost ws = views(words@);
    let ghost es = views(extensions@);
    let mut out: Vec<Candidate> = Vec::new();
    let mut i: usize = 0;
    proof {
        assert(ws.subrange(0, 0) == Seq::<Seq<char>>::empty());
        assert(models(out@) =~= Seq::<CandidateModel>::empty());
    }
    while i < words.len()
        invariant
            i <= words@.len(),
            ws == views(words@),
            es == views(extensions@),
            base@ == base_url(url@),
            models(out@) == dir_candidates(base@, ws.subrange(0, i as int), es, add_slash),
        decreases words@.len() - i,
    {
        let path = dir_path_chars(words[i].as_str());
        let ghost done = models(out@);
        let ghost word = ws[i as int];
        proof {
            assert(word == words@[i as int]@);
            let next = ws.subrange(0, i + 1);
            assert(next.drop_last() == ws.subrange(0, i as int));
            assert(next.last() == word);
        }
        push_variants(&mut out, &base, &path, None, add_slash);
        let ghost stem = done + variant_candidates(base@, path@, None, add_slash);
        let mut k: usize = 0;
        proof {
            assert(es.subrange(0, 0) == Seq::<Seq<char>>::empty());
            assert(stem + Seq::<CandidateModel>::empty() =~= stem);
        }
        while k < extensions.len()
            invariant
                k <= extensions@.len(),
                es == views(extensions@),
                models(out@) == stem + ext_candidates(
                    base@,
                    path@,
                    es.subrange(0, k as int),
                    add_slash,
                ),
            decreases extensions@.len() - k,
        {
            let ext = chars_of(extensions[k].as_str());
            let mut full = path.clone();
            if !(ext.len() > 0 && ext[0] == '.') {
                full.push('.');
            }
            append_chars(&mut full, &ext);
            let ghost before = models(out@);
            let ghost sofar = ext_candidates(base@, path@, es.subrange(0, k as int), add_slash);
            proof {
                assert(es[k as int] == ext@);
                assert(full@ =~= ext_path(path@, ext@));
                let next = es.subrange(0, k + 1);
                assert(next.drop_last() == es.subrange(0, k as int));
                assert(next.last() == ext@);
            }
            push_variants(&mut out, &base, &full, Some(extensions[k].clone()), add_slash);
            proof {
                let added = variant_candidates(base@, full@, Some(ext@), add_slash);
                assert((stem + sofar) + added =~= stem + (sofar + added));
            }
            k += 1;
        }
        proof {
            assert(es.subrange(0, es.len() as int) == es);
            let all = ext_candidates(base@, path@, es, add_slash);
            assert(stem + all =~= done + word_candidates(base@, word, es, add_slash));
        }
        i += 1;
    }
    let generated = out.len();
    proof {
        assert(ws.subrange(0, ws.len() as int) == ws);
        lemma_dir_candidates_len(base@, ws, es, add_slash);
        assert(models(out@).len() == out@.len());
        // a vector holds no more than the machine's word counts
        assert(generated == out@.len() && generated <= u64::MAX);
    }
    out
}

/// The domain below which names are tried: the target without leading
/// dots.
pub open spec fn base_domain(domain: Seq<char>) -> Seq<char> {
    strip_leading(domain, '.')
}

/// `label` below `domain`.
pub open spec fn below(label: Seq<char>, domain: Seq<char>) -> Seq<char> {
    label + seq!['.'] + domain
}

/// The candidates of a DNS run: each word below the base domain.
pub open spec fn dns_candidates(domain: Seq<char>, words: Seq<Seq<char>>) -> Seq<CandidateModel> {
    Seq::new(words.len(), |k: int| plain(below(words[k], base_domain(domain))))
}

/// The host of a word in virtual-host mode: the word below the domain if
/// appending is asked for and a domain is given, else the word itself.
pub open spec fn vhost_host(word: Seq<char>, append_domain: bool, domain: Option<Seq<char>>) -> Seq<
    char,
> {
    match domain {
        Some(d) => if append_domain {
            below(word, d)
        } else {
            word
        },
        None => word,
    }
}

/// The candidates of a virtual-host run.
pub open spec fn vhost_candidates(
    words: Seq<Seq<char>>,
    append_domain: bool,
    domain: Option<Seq<char>>,
) -> Seq<CandidateModel> {
    Seq::new(words.len(), |k: int| plain(vhost_host(words[k], append_domain, domain)))
}

/// The candidates of the modes that probe each word as it is: payloads,
/// bucket names and file names.
pub open spec fn word_list_candidates(words: Seq<Seq<char>>) -> Seq<CandidateModel> {
    Seq::new(words.len(), |k: int| plain(words[k]))
}

/// The string `label` below `domain`.
pub fn join_below(label: &str, domain: &Vec<char>) -> (name: String)
    ensures
        name@ == below(label@, domain@),
{
    let mut v = chars_of(label);
    v.push('.');
    append_chars(&mut v, domain);
    string_of(&v)
}

/// The candidates of a DNS run on `domain`.
pub fn generate_dns(domain: &str, words: &Vec<String>) -> (out: Vec<Candidate>)
    ensures
        models(out@) == dns_candidates(domain@, views(words@)),
        out@.len() == words@.len(),
{
    let full = chars_of(domain);
    let skip = strip_leading_len(&full, '.');
    let base = crate::list::slice_chars(&full, skip, full.len());
    let mut out: Vec<Candidate> = Vec::new();
    let mut i: usize = 0;
    while i < words.len()
        invariant
            i <= words@.len(),
            base@ == base_domain(domain@),
            out@.len() == i,
            forall|k: int| 0 <= k < i ==> (#[trigger] out@[k])@ == plain(below(words@[k]@, base@)),
        decreases words@.len() - i,
    {
        out.push(Candidate { value: join_below(words[i].as_str(), &base), tag: None });
        i += 1;
    }
    proof {
        assert(models(out@) =~= dns_candidates(domain@, views(words@)));
    }
    out
}

/// The contents of an optional string.
pub open spec fn optional_view(s: Option<String>) -> Option<Seq<char>> {
    match s {
        Some(text) => Some(text@),
        None => None,
    }
}

/// The candidates of a virtual-host run.
pub fn generate_vhost(words: &Vec<String>, append_domain: bool, domain: &Option<String>) -> (out: Vec<
    Candidate,
>)
    ensures
        models(out@) == vhost_candidates(views(words@), append_domain, optional_view(*domain)),
        out@.len() == words@.len(),
{
    let mut out: Vec<Candidate> = Vec::new();
    let mut i: usize = 0;
    while i < words.len()
        invariant
            i <= words@.len(),
            out@.len() == i,
            forall|k: int|
                0 <= k < i ==> (#[trigger] out@[k])@ == plain(
                    vhost_host(words@[k]@, append_domain, optional_view(*domain)),
                ),
        decreases words@.len() - i,
    {
        let value = match domain {
            Some(d) => if append_domain {
                let suffix = chars_of(d.as_str());
                join_below(words[i].as_str(), &suffix)
            } else {
                words[i].clone()
            },
            None => words[i].clone(),
        };
        out.push(Candidate { value, tag: None });
        i += 1;
    }
    proof {
        assert(models(out@) =~= vhost_candidates(
            views(words@),
            append_domain,
            optional_view(*domain),
        ));
    }
    out
}

/// The candidates of a run that probes each word as it is.
pub fn generate_words(words: &Vec<String>) -> (out: Vec<Candidate>)
    ensures
        models(out@) == word_list_candidates(views(words@)),
        out@.len() == words@.len(),
{
    let mut out: Vec<Candidate> = Vec::new();
    let mut i: usize = 0;
    while i < words.len()
        invariant
            i <= words@.len(),
            out@.len() == i,
            forall|k: int| 0 <= k < i ==> (#[trigger] out@[k])@ == plain(words@[k]@),
        decreases words@.len() - i,
    {
        out.push(Candidate { value: words[i].clone(), tag: None });
        i += 1;
    }
    proof {
        assert(models(out@) =~= word_list_candidates(views(words@)));
    }
    out
}

} // verus!
