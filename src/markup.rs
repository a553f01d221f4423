use vstd::prelude::*;
use vstd::string::StrSliceExecFns;
use soup::{NodeExt, QueryBuilderExt};

verus! {

pub open spec fn is_digit(c: char) -> bool {
    48 <= c as u32 && c as u32 <= 57
}

pub open spec fn all_digits(s: Seq<char>) -> bool {
    forall|i: int| 0 <= i < s.len() ==> is_digit(#[trigger] s[i])
}

/// The number written in decimal by `s`, most significant digit first.
pub open spec fn digits_value(s: Seq<char>) -> int
    decreases s.len(),
{
    if s.len() == 0 {
        0
    } else {
        digits_value(s.drop_last()) * 10 + (s.last() as u32 - 48)
    }
}

/// The prefix that the site puts before each listing entry's number.
pub open spec fn id_prefix() -> Seq<char> {
    seq!['s', 'i', 'd', '-']
}

/// What is left of an identifier attribute once its prefix is stripped.
pub open spec fn id_digits(attr: Seq<char>) -> Seq<char> {
    if attr.len() >= 4 && attr.subrange(0, 4) == id_prefix() {
        attr.subrange(4, attr.len() as int)
    } else {
        attr
    }
}

/// The identifier an attribute stands for, if it is a valid one: after the
/// prefix, one or more decimal digits whose value fits in an `i64`.
pub open spec fn attr_id(attr: Seq<char>) -> Option<i64> {
    let d = id_digits(attr);
    if d.len() > 0 && all_digits(d) && digits_value(d) <= i64::MAX {
        Some(digits_value(d) as i64)
    } else {
        None
    }
}

proof fn lemma_digits_value_nonneg(s: Seq<char>)
    requires
        all_digits(s),
    ensures
        digits_value(s) >= 0,
    decreases s.len(),
{
    if s.len() > 0 {
        lemma_digits_value_nonneg(s.drop_last());
    }
}

/// Reads the identifier out of a listing entry's `id` attribute.
pub fn parse_id(attr: &str) -> (r: Option<i64>)
    ensures
        r == attr_id(attr@),
{
    let n = attr.unicode_len();
    let mut start: usize = 0;
    if n >= 4 && attr.get_char(0) == 's' && attr.get_char(1) == 'i' && attr.get_char(2) == 'd'
        && attr.get_char(3) == '-' {
        assert(attr@.subrange(0, 4) =~= id_prefix());
        start = 4;
    } else {
        assert(n >= 4 ==> attr@.subrange(0, 4)[0] == attr@[0]);
        assert(n >= 4 ==> attr@.subrange(0, 4)[1] == attr@[1]);
        assert(n >= 4 ==> attr@.subrange(0, 4)[2] == attr@[2]);
        assert(n >= 4 ==> attr@.subrange(0, 4)[3] == attr@[3]);
    }
    let ghost d = id_digits(attr@);
    assert(d =~= attr@.subrange(start as int, n as int));
    if start == n {
        return None;
    }
    let mut acc: i64 = 0;
    let mut overflow = false;
    let mut i: usize = start;
    while i < n
        invariant
            start <= i <= n,
            n == attr@.len(),
            d =~= attr@.subrange(start as int, n as int),
            d == id_digits(attr@),
            all_digits(attr@.subrange(start as int, i as int)),
            acc >= 0,
            !overflow ==> acc as int == digits_value(attr@.subrange(start as int, i as int)),
            overflow ==> digits_value(attr@.subrange(start as int, i as int)) > i64::MAX,
        decreases n - i,
    {
        let c = attr.get_char(i);
        let code = c as u32;
        if !(48 <= code && code <= 57) {
            assert(d[i - start] == c);
            assert(!is_digit(d[i - start]));
            assert(!all_digits(d));
            return None;
        }
        let ghost pre = attr@.subrange(start as int, i as int);
        let ghost next = attr@.subrange(start as int, i + 1);
        assert(next.drop_last() =~= pre);
        assert(next.last() == c);
        assert(all_digits(next)) by {
            assert forall|k: int| 0 <= k < next.len() implies is_digit(#[trigger] next[k]) by {
                if k < pre.len() {
                    assert(next[k] == pre[k]);
                }
            }
        }
        let digit = (code - 48) as i64;
        if !overflow {
            if acc <= (i64::MAX - digit) / 10 {
                assert(acc * 10 + digit <= i64::MAX) by (nonlinear_arith)
                    requires
                        acc <= (i64::MAX - digit) / 10,
                        0 <= digit <= 9,
                        acc >= 0,
                ;
                acc = acc * 10 + digit;
            } else {
                assert(acc * 10 + digit > i64::MAX) by (nonlinear_arith)
                    requires
                        acc > (i64::MAX - digit) / 10,
                        0 <= digit <= 9,
                ;
                overflow = true;
            }
        } else {
            proof {
                lemma_digits_value_nonneg(pre);
                assert(digits_value(next) == digits_value(pre) * 10 + digit);
            }
        }
        i = i + 1;
    }
    assert(attr@.subrange(start as int, n as int) =~= d);
    if overflow {
        None
    } else {
        Some(acc)
    }
}


pub open spec fn text_of(o: Option<String>) -> Option<Seq<char>> {
    match o {
        Some(s) => Some(s@),
        None => None,
    }
}

pub open spec fn texts_of(v: Seq<Option<String>>) -> Seq<Option<Seq<char>>> {
    v.map_values(|o: Option<String>| text_of(o))
}

/// The `id` attribute of each `figure` element of a listing page, in page
/// order (`None` for an entry without one), as the HTML parser finds them.
pub uninterp spec fn listing_id_attrs(markup: Seq<char>) -> Seq<Option<Seq<char>>>;

/// The identifiers of a listing's entries, in page order; an entry without an
/// attribute, or with one that is no valid identifier, is skipped.
pub open spec fn listing_ids(attrs: Seq<Option<Seq<char>>>) -> Seq<i64>
    decreases attrs.len(),
{
    if attrs.len() == 0 {
        seq![]
    } else {
        let prev = listing_ids(attrs.drop_last());
        match attrs.last() {
            Some(a) => match attr_id(a) {
                Some(id) => prev.push(id),
                None => prev,
            },
            None => prev,
        }
    }
}

/// Relies on soup: `Soup::new`, the `figure` tag query with `find_all`, and
/// `NodeExt::get("id")` on each match. Parsing depends on the markup alone.
#[verifier::external_body]
fn figure_id_attrs(markup: &str) -> (r: Vec<Option<String>>)
    ensures
        texts_of(r@) == listing_id_attrs(markup@),
{
    let soup = soup::Soup::new(markup);
    soup.tag("figure").find_all().map(|node| node.get("id")).collect()
}

/// Picks the identifiers out of the entries' attributes, skipping malformed
/// entries rather than failing the whole listing.
pub fn ids_from_attrs(attrs: &Vec<Option<String>>) -> (r: Vec<i64>)
    ensures
        r@ == listing_ids(texts_of(attrs@)),
{
    let mut r: Vec<i64> = Vec::new();
    let mut i: usize = 0;
    while i < attrs.len()
        invariant
            i <= attrs@.len(),
            r@ == listing_ids(texts_of(attrs@.subrange(0, i as int))),
        decreases attrs@.len() - i,
    {
        let ghost pre = texts_of(attrs@.subrange(0, i as int));
        let ghost next = texts_of(attrs@.subrange(0, i + 1));
        assert(next.drop_last() =~= pre);
        assert(next.last() == text_of(attrs@[i as int]));
        match &attrs[i] {
            Some(a) => {
                match parse_id(a.as_str()) {
                    Some(id) => r.push(id),
                    None => {},
                }
            },
            None => {},
        }
        i = i + 1;
    }
    assert(attrs@.subrange(0, attrs@.len() as int) =~= attrs@);
    r
}

/// Extracts the identifiers of a listing page, in page order.
pub fn parse_proto_ids(text: &str) -> (r: Vec<i64>)
    ensures
        r@ == listing_ids(listing_id_attrs(text@)),
{
    let attrs = figure_id_attrs(text);
    ids_from_attrs(&attrs)
}

/// A listing whose entries all carry a valid identifier yields exactly one
/// identifier per entry, in page order, each the number after the prefix.
pub proof fn lemma_valid_listing_ids(attrs: Seq<Option<Seq<char>>>)
    requires
        forall|i: int| 0 <= i < attrs.len() ==> (#[trigger] attrs[i] matches Some(a) && attr_id(a) is Some),
    ensures
        listing_ids(attrs).len() == attrs.len(),
        forall|i: int| 0 <= i < attrs.len() ==> #[trigger] listing_ids(attrs)[i] as int == digits_value(id_digits(attrs[i]->Some_0)),
    decreases attrs.len(),
{
    if attrs.len() > 0 {
        let pre = attrs.drop_last();
        assert forall|i: int| 0 <= i < pre.len() implies (#[trigger] pre[i] matches Some(a) && attr_id(a) is Some) by {
            assert(pre[i] == attrs[i]);
        }
        lemma_valid_listing_ids(pre);
        let last = attrs[attrs.len() - 1]->Some_0;
        assert(attr_id(last) is Some);
        lemma_digits_value_nonneg(id_digits(last));
        assert(listing_ids(attrs) == listing_ids(pre).push(attr_id(last)->Some_0));
        assert forall|i: int| 0 <= i < attrs.len() implies #[trigger] listing_ids(attrs)[i] as int == digits_value(id_digits(attrs[i]->Some_0)) by {
            if i < pre.len() {
                assert(pre[i] == attrs[i]);
            }
        }
    }
}

} // verus!
