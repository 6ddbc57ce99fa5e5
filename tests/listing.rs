use lemmy_ui_core::listing::{decode_listing, decode_sort, encode_listing, encode_sort, ListingType, SortType};

#[test]
fn sort_param() {
    assert_eq!(encode_sort(SortType::Active), None);
    assert_eq!(encode_sort(SortType::Hot), Some("\"Hot\""));
    assert_eq!(encode_sort(SortType::Scaled), Some("\"Scaled\""));
    for s in [SortType::Active, SortType::Hot, SortType::Scaled, SortType::New] {
        assert_eq!(decode_sort(encode_sort(s)), s);
    }
    assert_eq!(decode_sort(Some("Hot")), SortType::Active);
    assert_eq!(decode_sort(Some("\"New\"")), SortType::New);
}

#[test]
fn listing_param() {
    assert_eq!(encode_listing(ListingType::All), None);
    assert_eq!(encode_listing(ListingType::Local), Some("\"Local\""));
    for l in [ListingType::All, ListingType::Local, ListingType::Subscribed] {
        assert_eq!(decode_listing(encode_listing(l)), l);
    }
    assert_eq!(decode_listing(Some("\"Everything\"")), ListingType::All);
}
