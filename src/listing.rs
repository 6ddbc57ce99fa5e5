//! The listing filters that select which posts a page shows.
use vstd::prelude::*;
use crate::text::same_text;

verus! {

/// The order in which the server lists posts. How the server breaks ties,
/// in `Scaled` above all, is its own affair.
#[derive(Debug, Clone, Copy, PartialEq, Eq, Structural)]
pub enum SortType {
    Active,
    Hot,
    Scaled,
    New,
}

/// Which communities a listing draws from.
#[derive(Debug, Clone, Copy, PartialEq, Eq, Structural)]
pub enum ListingType {
    All,
    Local,
    Subscribed,
}

pub open spec fn sort_tag(s: SortType) -> Seq<char> {
    match s {
        SortType::Active => seq!['A', 'c', 't', 'i', 'v', 'e'],
        SortType::Hot => seq!['H', 'o', 't'],
        SortType::Scaled => seq!['S', 'c', 'a', 'l', 'e', 'd'],
        SortType::New => seq!['N', 'e', 'w'],
    }
}

pub open spec fn listing_tag(l: ListingType) -> Seq<char> {
    match l {
        ListingType::All => seq!['A', 'l', 'l'],
        ListingType::Local => seq!['L', 'o', 'c', 'a', 'l'],
        ListingType::Subscribed => seq!['S', 'u', 'b', 's', 'c', 'r', 'i', 'b', 'e', 'd'],
    }
}

/// A word as a JSON string: between double quotes.
pub open spec fn quoted(w: Seq<char>) -> Seq<char> {
    seq!['"'] + w + seq!['"']
}

impl SortType {
    /// The `sort` parameter's text: the tag as a JSON string.
    pub fn param_text(&self) -> (r: &'static str)
        ensures
            r@ == quoted(sort_tag(*self)),
    {
        let r = match self {
            SortType::Active => "\"Active\"",
            SortType::Hot => "\"Hot\"",
            SortType::Scaled => "\"Scaled\"",
            SortType::New => "\"New\"",
        };
        proof {
            reveal_strlit("\"Active\"");
            reveal_strlit("\"Hot\"");
            reveal_strlit("\"Scaled\"");
            reveal_strlit("\"New\"");
            assert(quoted(sort_tag(*self)) =~= r@);
        }
        r
    }
}


impl ListingType {
    /// The `list` parameter's text: the tag as a JSON string.
    pub fn param_text(&self) -> (r: &'static str)
        ensures
            r@ == quoted(listing_tag(*self)),
    {
        let r = match self {
            ListingType::All => "\"All\"",
            ListingType::Local => "\"Local\"",
            ListingType::Subscribed => "\"Subscribed\"",
        };
        proof {
            reveal_strlit("\"All\"");
            reveal_strlit("\"Local\"");
            reveal_strlit("\"Subscribed\"");
            assert(quoted(listing_tag(*self)) =~= r@);
        }
        r
    }
}

/// The sort order a `sort` parameter names; `Active` where it is absent or
/// names none.
pub open spec fn decode_sort_spec(param: Option<Seq<char>>) -> SortType {
    match param {
        Some(p) => if p == quoted(sort_tag(SortType::Hot)) {
            SortType::Hot
        } else if p == quoted(sort_tag(SortType::Scaled)) {
            SortType::Scaled
        } else if p == quoted(sort_tag(SortType::New)) {
            SortType::New
        } else {
            SortType::Active
        },
        None => SortType::Active,
    }
}

/// Reads the `sort` parameter (`None` where the URL has none).
pub fn decode_sort(param: Option<&str>) -> (r: SortType)
    ensures
        r == decode_sort_spec(crate::query::param_view(param)),
{
    match param {
        Some(p) => {
            if same_text(p, SortType::Hot.param_text()) {
                SortType::Hot
            } else if same_text(p, SortType::Scaled.param_text()) {
                SortType::Scaled
            } else if same_text(p, SortType::New.param_text()) {
                SortType::New
            } else {
                SortType::Active
            }
        },
        None => SortType::Active,
    }
}

/// Writes the `sort` parameter; the default order `Active` leaves it out.
pub fn encode_sort(sort: SortType) -> (r: Option<&'static str>)
    ensures
        r is None <==> sort == SortType::Active,
        r matches Some(t) ==> t@ == quoted(sort_tag(sort)),
{
    match sort {
        SortType::Active => None,
        _ => Some(sort.param_text()),
    }
}

/// The listing type a `list` parameter names; `All` where it is absent or
/// names none.
pub open spec fn decode_listing_spec(param: Option<Seq<char>>) -> ListingType {
    match param {
        Some(p) => if p == quoted(listing_tag(ListingType::Local)) {
            ListingType::Local
        } else if p == quoted(listing_tag(ListingType::Subscribed)) {
            ListingType::Subscribed
        } else {
            ListingType::All
        },
        None => ListingType::All,
    }
}

/// Reads the `list` parameter (`None` where the URL has none).
pub fn decode_listing(param: Option<&str>) -> (r: ListingType)
    ensures
        r == decode_listing_spec(crate::query::param_view(param)),
{
    match param {
        Some(p) => {
            if same_text(p, ListingType::Local.param_text()) {
                ListingType::Local
            } else if same_text(p, ListingType::Subscribed.param_text()) {
                ListingType::Subscribed
            } else {
                ListingType::All
            }
        },
        None => ListingType::All,
    }
}

/// Writes the `list` parameter; the default type `All` leaves it out.
pub fn encode_listing(list: ListingType) -> (r: Option<&'static str>)
    ensures
        r is None <==> list == ListingType::All,
        r matches Some(t) ==> t@ == quoted(listing_tag(list)),
{
    match list {
        ListingType::All => None,
        _ => Some(list.param_text()),
    }
}

/// Reading back the `sort` parameter written for a sort order gives it.
pub proof fn lemma_sort_round_trip(sort: SortType)
    ensures
        decode_sort_spec(
            if sort == SortType::Active {
                None
            } else {
                Some(quoted(sort_tag(sort)))
            },
        ) == sort,
{
    let texts = seq![
        quoted(sort_tag(SortType::Active)),
        quoted(sort_tag(SortType::Hot)),
        quoted(sort_tag(SortType::Scaled)),
        quoted(sort_tag(SortType::New)),
    ];
    assert(texts[0][1] != texts[1][1] && texts[0][1] != texts[2][1] && texts[0][1] != texts[3][1]);
    assert(texts[1][1] != texts[2][1] && texts[1][1] != texts[3][1] && texts[2][1] != texts[3][1]);
}

} // verus!
