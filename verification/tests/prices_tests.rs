use trade_client::prices::normalize;
use trade_client::trade::{FetchItem, FetchItemListing, FetchItemPrice};

// `amount` is in hundredths of the currency unit.
fn listing(id: &str, amount: u64, currency: &str) -> FetchItem {
    FetchItem {
        id: id.to_string(),
        listing: FetchItemListing {
            price: FetchItemPrice { amount, currency: currency.to_string() },
        },
    }
}

#[test]
fn normalize_converts_and_filters() {
    // 10 chaos stays 10; 2 divine becomes 300 at ratio 150; the exalt listing
    // is dropped; relative order of the kept listings is preserved. In
    // hundredths: 1000 stays, 200 becomes 30000.
    let listings = vec![
        listing("a", 1000, "chaos"),
        listing("b", 200, "divine"),
        listing("c", 500, "exalt"),
    ];
    assert_eq!(normalize(&listings, 150), vec![1000, 30000]);
}

#[test]
fn normalize_keeps_fractional_amounts() {
    // 2.75 divine at ratio 150 is 412.50 chaos: 275 hundredths become 41250.
    let listings = vec![listing("a", 275, "divine")];
    assert_eq!(normalize(&listings, 150), vec![41250]);
}

#[test]
fn normalize_keeps_relative_order() {
    let listings = vec![
        listing("a", 100, "divine"),
        listing("b", 700, "chaos"),
        listing("c", 300, "mirror"),
        listing("d", 200, "divine"),
        listing("e", 400, "chaos"),
    ];
    assert_eq!(normalize(&listings, 100), vec![10000, 700, 20000, 400]);
}

#[test]
fn normalize_of_unknown_currencies_is_empty() {
    let listings = vec![listing("a", 900, "mirror"), listing("b", 100, "fusing")];
    assert_eq!(normalize(&listings, 42), Vec::<u128>::new());
}

#[test]
fn normalize_of_nothing_is_empty() {
    assert_eq!(normalize(&Vec::new(), 42), Vec::<u128>::new());
}

#[test]
fn normalize_handles_large_products() {
    // The widest possible product still fits the output type.
    let listings = vec![listing("a", u64::MAX, "divine")];
    assert_eq!(normalize(&listings, u32::MAX), vec![(u64::MAX as u128) * (u32::MAX as u128)]);
}
