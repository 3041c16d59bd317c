use quantsupport::quotes::quote::{Quote, QuoteLevels, QuoteSelector};
use quantsupport::quotes::quotedetails::QuoteDetails;
use quantsupport::quotes::quotestore::QuoteStore;
use quantsupport::time::Date;

fn quote(id: &str, mid: f64) -> Quote<f64> {
    Quote::new(id.parse::<QuoteDetails>().unwrap(), QuoteLevels::with_mid(mid))
}

#[test]
fn add_then_read_back() {
    let mut store = QuoteStore::new(Date::new(2025, 11, 11));
    store.add_quote(quote("OIS_USD_SOFR_1Y", 0.04));
    store.add_quote(quote("OIS_USD_SOFR_2Y", 0.042));
    assert_eq!(store.quotes().len(), 2);
    assert_eq!(store.quote("OIS_USD_SOFR_2Y").unwrap().levels().mid(), Some(0.042));
    assert!(store.quote("OIS_USD_SOFR_3Y").is_none());
    assert_eq!(store.reference_date(), Date::new(2025, 11, 11));
}

#[test]
fn same_identifier_replaces() {
    let mut store = QuoteStore::new(Date::new(2025, 11, 11));
    store.add_quote(quote("OIS_USD_SOFR_1Y", 0.04));
    store.add_quote(quote("OIS_USD_SOFR_1Y", 0.05));
    assert_eq!(store.quotes().len(), 1);
    assert_eq!(store.quote("OIS_USD_SOFR_1Y").unwrap().levels().mid(), Some(0.05));
}

#[test]
fn store_selects_copies() {
    let mut store = QuoteStore::new(Date::new(2025, 11, 11));
    store.add_quote(quote("OIS_USD_SOFR_1Y", 0.04));
    let q = store.select("OIS_USD_SOFR_1Y").unwrap();
    assert_eq!(q.details().identifier(), "OIS_USD_SOFR_1Y");
    assert_eq!(q.levels().mid(), Some(0.04));
    assert!(store.select("OIS_USD_SOFR_2Y").is_none());
    assert_eq!(QuoteSelector::reference_date(&store), Date::new(2025, 11, 11));
}
