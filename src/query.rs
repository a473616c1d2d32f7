//! Lookup of a key in a URL query string such as `?a=1&b=2`.
use vstd::prelude::*;
use vstd::string::StringSliceAdditionalSpecFns;
use vstd::utf8::*;

verus! {

broadcast use encode_utf8_valid_utf8, is_char_boundary_start_end_of_seq;

/// The first index in `from..to` whose byte is `b`, or `to` when there is none.
pub open spec fn first_at(s: Seq<u8>, from: int, to: int, b: u8) -> int
    decreases to - from,
{
    if from >= to {
        to
    } else if s[from] == b {
        from
    } else {
        first_at(s, from + 1, to, b)
    }
}

proof fn lemma_first_at_bounds(s: Seq<u8>, from: int, to: int, b: u8)
    requires
        from <= to,
    ensures
        from <= first_at(s, from, to, b) <= to,
        first_at(s, from, to, b) < to ==> s[first_at(s, from, to, b)] == b,
    decreases to - from,
{
    if from < to && s[from] != b {
        lemma_first_at_bounds(s, from + 1, to, b);
    }
}

/// Byte range of the value stored under `key`, scanning the `&`-separated
/// pairs of `s` from `start` on. A pair without `=` ends the scan with no
/// result; a value ends at the next `=` or at the end of its pair.
pub open spec fn pairs_lookup(s: Seq<u8>, start: int, key: Seq<u8>) -> Option<(int, int)>
    decreases s.len() - start,
{
    if start < 0 || start > s.len() {
        None
    } else {
        let seg_end = first_at(s, start, s.len() as int, 38u8);
        let eq = first_at(s, start, seg_end, 61u8);
        if seg_end < start || eq >= seg_end {
            None
        } else if s.subrange(start, eq) == key {
            Some((eq + 1, first_at(s, eq + 1, seg_end, 61u8)))
        } else if seg_end >= s.len() {
            None
        } else {
            pairs_lookup(s, seg_end + 1, key)
        }
    }
}

/// The value stored under `key` in the query `q`, which must begin with `?`.
pub open spec fn query_lookup(q: Seq<u8>, key: Seq<u8>) -> Option<Seq<u8>> {
    if q.len() > 0 && q[0] == 63u8 {
        match pairs_lookup(q, 1, key) {
            Some(r) => Some(q.subrange(r.0, r.1)),
            None => None,
        }
    } else {
        None
    }
}

proof fn lemma_boundary_at_ascii(b: Seq<u8>, i: int)
    requires
        valid_utf8(b),
        0 <= i <= b.len(),
        i < b.len() ==> b[i] < 128,
    ensures
        is_char_boundary(b, i),
{
    if i < b.len() {
        is_char_boundary_iff_not_is_continuation_byte(b, i);
    }
}

proof fn lemma_boundary_after_ascii(b: Seq<u8>, i: int)
    requires
        valid_utf8(b),
        0 <= i < b.len(),
        is_char_boundary(b, i),
        b[i] < 128,
    ensures
        is_char_boundary(b, i + 1),
    decreases b.len(),
{
    let n = length_of_first_scalar(b);
    let rest = pop_first_scalar(b);
    if i == 0 {
        assert(n == 1);
        assert(is_char_boundary(rest, 0));
    } else {
        assert(valid_utf8(rest));
        assert(rest.len() == b.len() - n);
        assert(is_char_boundary(rest, i - n));
        assert(rest[i - n] == b[i]);
        lemma_boundary_after_ascii(rest, i - n);
        assert(i + 1 - n != 0);
    }
}

fn find_byte(s: &[u8], from: usize, to: usize, b: u8) -> (r: usize)
    requires
        from <= to <= s@.len(),
    ensures
        r == first_at(s@, from as int, to as int, b),
        from <= r <= to,
        r < to ==> s@[r as int] == b,
{
    proof {
        lemma_first_at_bounds(s@, from as int, to as int, b);
    }
    let mut i: usize = from;
    while i < to
        invariant
            from <= i <= to <= s@.len(),
            first_at(s@, i as int, to as int, b) == first_at(s@, from as int, to as int, b),
        decreases to - i,
    {
        if s[i] == b {
            return i;
        }
        i = i + 1;
    }
    i
}

fn range_equals(s: &[u8], from: usize, to: usize, t: &[u8]) -> (r: bool)
    requires
        from <= to <= s@.len(),
    ensures
        r == (s@.subrange(from as int, to as int) == t@),
{
    if to - from != t.len() {
        return false;
    }
    let mut i: usize = 0;
    while i < t.len()
        invariant
            from <= to <= s@.len(),
            to - from == t@.len(),
            0 <= i <= t@.len(),
            forall|j: int| 0 <= j < i ==> s@[from + j] == t@[j],
        decreases t@.len() - i,
    {
        if s[from + i] != t[i] {
            assert(s@.subrange(from as int, to as int)[i as int] != t@[i as int]);
            return false;
        }
        i = i + 1;
    }
    assert(s@.subrange(from as int, to as int) =~= t@);
    true
}

/// Parses a query string of the form `?key=value&key=value` and returns the
/// value stored under `search_key`.
pub fn parse_url_query_string<'a>(query: &'a str, search_key: &str) -> (r: Option<&'a str>)
    ensures
        match r {
            Some(v) => query_lookup(query.spec_bytes(), search_key.spec_bytes()) == Some(
                v.spec_bytes(),
            ),
            None => query_lookup(query.spec_bytes(), search_key.spec_bytes()) is None,
        },
{
    let q = query.as_bytes();
    let key = search_key.as_bytes();
    let len = q.len();
    proof {
        assert(valid_utf8(q@));
    }
    if len == 0 || q[0] != 63u8 {
        return None;
    }
    let mut start: usize = 1;
    while start <= len
        invariant
            len == q@.len(),
            q@ == query.spec_bytes(),
            key@ == search_key.spec_bytes(),
            len > 0 && q@[0] == 63u8,
            1 <= start <= len,
            pairs_lookup(q@, start as int, key@) == pairs_lookup(q@, 1, key@),
        decreases len - start,
    {
        let seg_end = find_byte(q, start, len, 38u8);
        let eq = find_byte(q, start, seg_end, 61u8);
        if eq >= seg_end {
            return None;
        }
        if range_equals(q, start, eq, key) {
            let vend = find_byte(q, eq + 1, seg_end, 61u8);
            proof {
                lemma_boundary_at_ascii(q@, eq as int);
                lemma_boundary_after_ascii(q@, eq as int);
            }
            let (_, tail) = query.split_at(eq + 1);
            proof {
                valid_utf8_split(q@, eq + 1);
                let t = tail.spec_bytes();
                assert(t =~= q@.subrange(eq + 1, len as int));
                if vend < len {
                    assert(t[vend - eq - 1] == q@[vend as int]);
                }
                lemma_boundary_at_ascii(t, vend - eq - 1);
            }
            let (value, _) = tail.split_at(vend - eq - 1);
            proof {
                assert(value.spec_bytes() =~= q@.subrange(eq + 1, vend as int));
            }
            return Some(value);
        }
        if seg_end >= len {
            return None;
        }
        start = seg_end + 1;
    }
    None
}

} // verus!
