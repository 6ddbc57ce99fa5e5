//! The URL query parameters that carry the pagination state: `from` holds
//! the current page position as JSON `[offset, cursor]` (cursor `null` on the
//! first page), `prev` the JSON array of earlier positions and `limit` the
//! page size in decimal.
use vstd::prelude::*;
use crate::paging::{
    NavView, PageCursorState, PageKey, PageKeyView, first_page, keys_view, DEFAULT_LIMIT,
};

verus! {

/// What serde_json::from_str reads from a text as a `(usize, Option<String>)`
/// pair, or `None` where the text holds no such pair.
pub uninterp spec fn json_read_page_key(s: Seq<char>) -> Option<(usize, Option<Seq<char>>)>;

/// What serde_json::from_str reads from a text as a
/// `Vec<(usize, Option<String>)>`, or `None` where the text holds no such list.
pub uninterp spec fn json_read_page_keys(s: Seq<char>) -> Option<Seq<(usize, Option<Seq<char>>)>>;

/// Relies on serde_json::to_string for a `(usize, Option<String>)` pair:
/// writing an integer and an optional string cannot fail, and
/// serde_json::from_str reads the same pair back from the text.
#[verifier::external_body]
fn page_key_to_json(key: &PageKey) -> (r: Option<String>)
    ensures
        r is Some,
        json_read_page_key(r.unwrap()@) == Some(key@),
{
    serde_json::to_string(&(key.offset, &key.cursor)).ok()
}

/// Relies on serde_json::from_str::<(usize, Option<String>)>: the pair read
/// from the text, if it holds one.
#[verifier::external_body]
fn page_key_from_json(s: &str) -> (r: Option<PageKey>)
    ensures
        match r {
            Some(k) => json_read_page_key(s@) == Some(k@),
            None => json_read_page_key(s@) is None,
        },
{
    serde_json::from_str::<(usize, Option<String>)>(s).ok().map(
        |(offset, cursor)| PageKey { offset, cursor },
    )
}

/// Relies on serde_json::to_string for a `Vec<(usize, Option<String>)>`:
/// writing integers and optional strings cannot fail, and
/// serde_json::from_str reads the same list back from the text.
#[verifier::external_body]
fn page_keys_to_json(keys: &Vec<PageKey>) -> (r: Option<String>)
    ensures
        r is Some,
        json_read_page_keys(r.unwrap()@) == Some(keys_view(keys@)),
{
    let pairs: Vec<(usize, &Option<String>)> = keys.iter().map(|k| (k.offset, &k.cursor)).collect();
    serde_json::to_string(&pairs).ok()
}

/// Relies on serde_json::from_str::<Vec<(usize, Option<String>)>>: the list
/// read from the text, if it holds one.
#[verifier::external_body]
fn page_keys_from_json(s: &str) -> (r: Option<Vec<PageKey>>)
    ensures
        match r {
            Some(ks) => json_read_page_keys(s@) == Some(keys_view(ks@)),
            None => json_read_page_keys(s@) is None,
        },
{
    let pairs = serde_json::from_str::<Vec<(usize, Option<String>)>>(s).ok()?;
    Some(pairs.into_iter().map(|(offset, cursor)| PageKey { offset, cursor }).collect())
}

/// The text of a written query parameter, `None` where it is left out.
pub open spec fn text_view(param: Option<String>) -> Option<Seq<char>> {
    match param {
        Some(s) => Some(s@),
        None => None,
    }
}

/// The text of a query parameter, `None` where the URL has none.
pub open spec fn param_view(param: Option<&str>) -> Option<Seq<char>> {
    match param {
        Some(s) => Some(s@),
        None => None,
    }
}

pub open spec fn is_decimal_digit(c: char) -> bool {
    '0' <= c && c <= '9'
}

/// The value of a string of decimal digits.
pub open spec fn digits_value(d: Seq<char>) -> nat
    decreases d.len(),
{
    if d.len() == 0 {
        0
    } else {
        digits_value(d.drop_last()) * 10 + (d.last() as nat - '0' as nat) as nat
    }
}

/// The digits of an unsigned decimal text: what follows an optional `+`.
pub open spec fn unsigned_digits(s: Seq<char>) -> Seq<char> {
    if s.len() > 0 && s[0] == '+' {
        s.drop_first()
    } else {
        s
    }
}

/// Whether `s` is the decimal text of a `usize`: an optional `+`, then one or
/// more digits whose value fits.
pub open spec fn is_usize_text(s: Seq<char>) -> bool {
    let d = unsigned_digits(s);
    &&& d.len() > 0
    &&& forall|i: int| 0 <= i < d.len() ==> is_decimal_digit(#[trigger] d[i])
    &&& digits_value(d) <= usize::MAX
}

/// Relies on `str::parse::<usize>`: it accepts an optional `+` followed by
/// decimal digits whose value fits in `usize`, and fails on anything else.
#[verifier::external_body]
fn parse_usize(s: &str) -> (r: Option<usize>)
    ensures
        r is Some <==> is_usize_text(s@),
        r matches Some(n) ==> n == digits_value(unsigned_digits(s@)),
{
    s.parse::<usize>().ok()
}

/// The position a `from` parameter names: the pair it holds, or the first
/// page where it is absent or holds none.
pub open spec fn decode_from_spec(param: Option<Seq<char>>) -> PageKeyView {
    match param {
        Some(s) => match json_read_page_key(s) {
            Some(k) => k,
            None => first_page(),
        },
        None => first_page(),
    }
}

/// Reads the `from` parameter (`None` where the URL has none).
pub fn decode_from(param: Option<&str>) -> (r: PageKey)
    ensures
        r@ == decode_from_spec(param_view(param)),
{
    match param {
        Some(s) => match page_key_from_json(s) {
            Some(k) => k,
            None => PageKey::first(),
        },
        None => PageKey::first(),
    }
}

/// The positions a `prev` parameter names: the list it holds, or none where
/// it is absent or holds none.
pub open spec fn decode_prev_spec(param: Option<Seq<char>>) -> Seq<PageKeyView> {
    match param {
        Some(s) => match json_read_page_keys(s) {
            Some(ks) => ks,
            None => Seq::empty(),
        },
        None => Seq::empty(),
    }
}

/// Reads the `prev` parameter (`None` where the URL has none).
pub fn decode_prev(param: Option<&str>) -> (r: Vec<PageKey>)
    ensures
        keys_view(r@) == decode_prev_spec(param_view(param)),
{
    match param {
        Some(s) => match page_keys_from_json(s) {
            Some(ks) => ks,
            None => {
                let r: Vec<PageKey> = Vec::new();
                assert(keys_view(r@) =~= Seq::empty());
                r
            },
        },
        None => {
            let r: Vec<PageKey> = Vec::new();
            assert(keys_view(r@) =~= Seq::empty());
            r
        },
    }
}

/// The page size a `limit` parameter names, or the default one.
pub open spec fn decode_limit_spec(param: Option<Seq<char>>) -> usize {
    match param {
        Some(s) => if is_usize_text(s) {
            digits_value(unsigned_digits(s)) as usize
        } else {
            DEFAULT_LIMIT
        },
        None => DEFAULT_LIMIT,
    }
}

/// Reads the `limit` parameter (`None` where the URL has none).
pub fn decode_limit(param: Option<&str>) -> (r: usize)
    ensures
        r == decode_limit_spec(param_view(param)),
{
    match param {
        Some(s) => match parse_usize(s) {
            Some(n) => n,
            None => DEFAULT_LIMIT,
        },
        None => DEFAULT_LIMIT,
    }
}

/// Whether `param` is a `from` parameter for `key`: absent for the first
/// page, else a text from which serde_json reads `key`.
pub open spec fn is_from_param_of(param: Option<Seq<char>>, key: PageKeyView) -> bool {
    match param {
        Some(s) => json_read_page_key(s) == Some(key),
        None => key == first_page(),
    }
}

/// Writes the `from` parameter for a page position; `None` means the
/// parameter is left out, which the first page needs.
pub fn encode_from(key: &PageKey) -> (r: Option<String>)
    ensures
        is_from_param_of(text_view(r), key@),
        r is None <==> key@ == first_page(),
{
    if key.is_first() {
        None
    } else {
        Some(page_key_to_json(key).unwrap())
    }
}

/// Whether `param` is a `prev` parameter for `keys`: absent for an empty
/// stack, else a text from which serde_json reads `keys`.
pub open spec fn is_prev_param_of(param: Option<Seq<char>>, keys: Seq<PageKeyView>) -> bool {
    match param {
        Some(s) => json_read_page_keys(s) == Some(keys),
        None => keys.len() == 0,
    }
}

/// Writes the `prev` parameter for a stack of page positions; `None` means
/// the parameter is left out, which an empty stack needs.
pub fn encode_prev(keys: &Vec<PageKey>) -> (r: Option<String>)
    ensures
        is_prev_param_of(text_view(r), keys_view(keys@)),
        r is None <==> keys@.len() == 0,
{
    if keys.len() == 0 {
        None
    } else {
        Some(page_keys_to_json(keys).unwrap())
    }
}

/// Reading back the `from` parameter written for a page position gives that
/// position, for every offset and every cursor, the absent one included.
pub proof fn lemma_from_round_trip(key: PageKeyView, param: Option<Seq<char>>)
    requires
        is_from_param_of(param, key),
    ensures
        decode_from_spec(param) == key,
{
}

/// Reading back the `prev` parameter written for a stack of page positions
/// gives that stack.
pub proof fn lemma_prev_round_trip(keys: Seq<PageKeyView>, param: Option<Seq<char>>)
    requires
        is_prev_param_of(param, keys),
    ensures
        decode_prev_spec(param) == keys,
{
}


/// The `from` and `prev` parameters of a page's URL; `None` leaves one out.
#[derive(Debug)]
pub struct PageQuery {
    pub from: Option<String>,
    pub prev: Option<String>,
}

impl PageCursorState {
    /// Reads the navigation state from the `from` and `prev` parameters.
    pub fn from_query(from: Option<&str>, prev: Option<&str>) -> (r: PageCursorState)
        ensures
            r@ == (decode_from_spec(param_view(from)), decode_prev_spec(param_view(prev))),
    {
        PageCursorState { current: decode_from(from), prev: decode_prev(prev) }
    }

    /// Writes the navigation state into the `from` and `prev` parameters.
    pub fn to_query(&self) -> (r: PageQuery)
        ensures
            is_from_param_of(text_view(r.from), self@.0),
            is_prev_param_of(text_view(r.prev), self@.1),
    {
        PageQuery { from: encode_from(&self.current), prev: encode_prev(&self.prev) }
    }
}

/// Reading back the parameters written for a navigation state gives that
/// state: a shared or reloaded URL shows the same page with the same history.
pub proof fn lemma_query_round_trip(s: NavView, from: Option<Seq<char>>, prev: Option<Seq<char>>)
    requires
        is_from_param_of(from, s.0),
        is_prev_param_of(prev, s.1),
    ensures
        (decode_from_spec(from), decode_prev_spec(prev)) == s,
{
    lemma_from_round_trip(s.0, from);
    lemma_prev_round_trip(s.1, prev);
}

} // verus!
