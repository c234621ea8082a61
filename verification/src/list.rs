//! Comma-separated option values: status codes, sizes and extensions.

use crate::number::{parse_decimal_range, parse_number};
use crate::search::{split, split_bounds};
use crate::text::{chars_of, string_of_range, trim, trim_bounds, views};
use vstd::prelude::*;

verus! {

/// The numbers among `fields`, in order: each field is trimmed and kept if
/// it writes a number of at most `max`; the others are passed over.
pub open spec fn parsed_fields(fields: Seq<Seq<char>>, max: nat) -> Seq<nat>
    decreases fields.len(),
{
    if fields.len() == 0 {
        Seq::empty()
    } else {
        let head = parsed_fields(fields.drop_last(), max);
        match parse_number(trim(fields.last()), max) {
            Some(n) => head.push(n),
            None => head,
        }
    }
}

/// The numbers of at most `max` in the comma-separated list `s`.
pub open spec fn number_list(s: Seq<char>, max: nat) -> Seq<nat> {
    parsed_fields(split(s, ','), max)
}

/// The trimmed entries of the comma-separated list `s`, empty ones
/// included.
pub open spec fn entry_list(s: Seq<char>) -> Seq<Seq<char>> {
    split(s, ',').map_values(|f: Seq<char>| trim(f))
}

/// The numbers of a `u64` sequence.
pub open spec fn values(v: Seq<u64>) -> Seq<nat> {
    v.map_values(|x: u64| x as nat)
}

/// Reads the comma-separated list `s` of numbers of at most `max`.
pub fn parse_number_list(s: &str, max: u64) -> (r: Vec<u64>)
    ensures
        values(r@) == number_list(s@, max as nat),
        forall|i: int| 0 <= i < r@.len() ==> r@[i] <= max,
{
    let v = chars_of(s);
    let bounds = split_bounds(&v, ',');
    let ghost fields = split(s@, ',');
    let mut out: Vec<u64> = Vec::new();
    let mut k: usize = 0;
    proof {
        assert(fields.subrange(0, 0) == Seq::<Seq<char>>::empty());
        assert(values(out@) == Seq::<nat>::empty());
    }
    while k < bounds.len()
        invariant
            k <= bounds@.len() == fields.len(),
            v@ == s@,
            fields == split(s@, ','),
            forall|j: int|
                0 <= j < bounds@.len() ==> (#[trigger] bounds@[j]).0 <= bounds@[j].1 <= v@.len()
                    && v@.subrange(bounds@[j].0 as int, bounds@[j].1 as int) == fields[j],
            values(out@) == parsed_fields(fields.subrange(0, k as int), max as nat),
            forall|i: int| 0 <= i < out@.len() ==> out@[i] <= max,
        decreases bounds@.len() - k,
    {
        let (from, to) = bounds[k];
        let field = slice_chars(&v, from, to);
        let (a, b) = trim_bounds(&field);
        let parsed = parse_decimal_range(&field, a, b, max);
        proof {
            let next = fields.subrange(0, k + 1);
            assert(next.drop_last() == fields.subrange(0, k as int));
            assert(next.last() == fields[k as int]);
            assert(field@ == fields[k as int]);
        }
        let ghost before = out@;
        match parsed {
            Some(n) => {
                out.push(n);
                proof {
                    assert(values(out@) == values(before).push(n as nat));
                }
            },
            None => {},
        }
        k += 1;
    }
    proof {
        assert(fields.subrange(0, fields.len() as int) == fields);
    }
    out
}

/// The characters `v[from..to]`.
pub(crate) fn slice_chars(v: &Vec<char>, from: usize, to: usize) -> (r: Vec<char>)
    requires
        from <= to <= v@.len(),
    ensures
        r@ == v@.subrange(from as int, to as int),
{
    let mut r: Vec<char> = Vec::new();
    let mut i: usize = from;
    while i < to
        invariant
            from <= i <= to <= v@.len(),
            r@ == v@.subrange(from as int, i as int),
        decreases to - i,
    {
        r.push(v[i]);
        i += 1;
    }
    r
}

/// Reads the comma-separated list `s` into its trimmed entries.
pub fn parse_entry_list(s: &str) -> (r: Vec<String>)
    ensures
        views(r@) == entry_list(s@),
{
    let v = chars_of(s);
    let bounds = split_bounds(&v, ',');
    let ghost fields = split(s@, ',');
    let mut out: Vec<String> = Vec::new();
    let mut k: usize = 0;
    while k < bounds.len()
        invariant
            k <= bounds@.len() == fields.len(),
            v@ == s@,
            fields == split(s@, ','),
            forall|j: int|
                0 <= j < bounds@.len() ==> (#[trigger] bounds@[j]).0 <= bounds@[j].1 <= v@.len()
                    && v@.subrange(bounds@[j].0 as int, bounds@[j].1 as int) == fields[j],
            out@.len() == k,
            forall|j: int| 0 <= j < k ==> (#[trigger] out@[j])@ == trim(fields[j]),
        decreases bounds@.len() - k,
    {
        let (from, to) = bounds[k];
        let field = slice_chars(&v, from, to);
        let (a, b) = trim_bounds(&field);
        let entry = string_of_range(&field, a, b);
        proof {
            assert(field@ == fields[k as int]);
        }
        out.push(entry);
        k += 1;
    }
    proof {
        assert(views(out@) =~= entry_list(s@));
    }
    out
}

/// The numbers of a sequence of status codes.
pub open spec fn code_values(v: Seq<u16>) -> Seq<nat> {
    v.map_values(|x: u16| x as nat)
}

/// The numbers of a sequence of sizes.
pub open spec fn size_values(v: Seq<usize>) -> Seq<nat> {
    v.map_values(|x: usize| x as nat)
}

/// Reads a comma-separated list of status codes. Entries that are no
/// number of 16 bits are passed over.
pub fn parse_code_list(s: &str) -> (r: Vec<u16>)
    ensures
        code_values(r@) == number_list(s@, u16::MAX as nat),
{
    let wide = parse_number_list(s, 0xffff);
    let mut out: Vec<u16> = Vec::new();
    let mut i: usize = 0;
    while i < wide.len()
        invariant
            i <= wide@.len(),
            forall|j: int| 0 <= j < wide@.len() ==> wide@[j] <= 0xffff,
            out@.len() == i,
            forall|j: int| 0 <= j < i ==> out@[j] as nat == wide@[j] as nat,
        decreases wide@.len() - i,
    {
        out.push(wide[i] as u16);
        i += 1;
    }
    proof {
        assert(code_values(out@) =~= values(wide@));
    }
    out
}

/// Reads a comma-separated list of sizes. Entries that are no number of
/// the machine's word size are passed over.
pub fn parse_size_list(s: &str) -> (r: Vec<usize>)
    ensures
        size_values(r@) == number_list(s@, usize::MAX as nat),
{
    let wide = parse_number_list(s, usize::MAX as u64);
    let mut out: Vec<usize> = Vec::new();
    let mut i: usize = 0;
    while i < wide.len()
        invariant
            i <= wide@.len(),
            forall|j: int| 0 <= j < wide@.len() ==> wide@[j] <= usize::MAX,
            out@.len() == i,
            forall|j: int| 0 <= j < i ==> out@[j] as nat == wide@[j] as nat,
        decreases wide@.len() - i,
    {
        out.push(wide[i] as usize);
        i += 1;
    }
    proof {
        assert(size_values(out@) =~= values(wide@));
    }
    out
}

} // verus!
