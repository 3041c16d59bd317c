use quantsupport::currencies::Currency;
use quantsupport::errors::QSError;
use quantsupport::rates::indexstore::IndexStore;
use quantsupport::rates::interestrateindex::traits::{
    AdvanceInterestRateIndexInTime, HasName, HasTenor, HasTermStructure, InterestRateIndexTrait,
    RelinkableTermStructure,
};
use quantsupport::rates::traits::HasReferenceDate;
use quantsupport::time::{Date, Period, TimeUnit};
use vstd::seq::Seq;

/// A named index whose term structure is a curve id.
#[derive(Clone, Debug)]
struct TestIndex {
    name: Option<String>,
    reference_date: Date,
    curve: Option<u32>,
}

fn index(name: &str, reference_date: Date) -> TestIndex {
    TestIndex { name: Some(name.to_string()), reference_date, curve: None }
}

impl HasReferenceDate for TestIndex {
    fn spec_reference_date(&self) -> Date {
        unreachable!()
    }
    fn reference_date(&self) -> Date {
        self.reference_date
    }
}

impl AdvanceInterestRateIndexInTime for TestIndex {
    fn spec_advance_to_period(&self, _period: Period) -> Result<Self, QSError> {
        unreachable!()
    }
    fn spec_advance_to_date(&self, _date: Date) -> Result<Self, QSError> {
        unreachable!()
    }
    fn advance_to_period(&self, period: Period) -> Result<Self, QSError> {
        if self.name.as_deref() == Some("STALE") {
            return Ok(self.clone());
        }
        Ok(TestIndex { reference_date: self.reference_date.advance(period), ..self.clone() })
    }
    fn advance_to_date(&self, date: Date) -> Result<Self, QSError> {
        Ok(TestIndex { reference_date: date, ..self.clone() })
    }
}

impl HasTermStructure for TestIndex {
    type TermStructure = u32;
    fn term_structure(&self) -> Result<u32, QSError> {
        self.curve.ok_or(QSError::InvalidValue("no curve".to_string()))
    }
}

impl RelinkableTermStructure for TestIndex {
    fn spec_linked(self, _term_structure: u32) -> Self {
        unreachable!()
    }
    fn link_to(&mut self, term_structure: u32) {
        self.curve = Some(term_structure);
    }
}

impl HasTenor for TestIndex {
    fn tenor(&self) -> Period {
        Period::new(1, TimeUnit::Days)
    }
}

impl HasName for TestIndex {
    fn spec_name(&self) -> Option<Seq<char>> {
        unreachable!()
    }
    fn name(&self) -> Result<String, QSError> {
        self.name.clone().ok_or(QSError::InvalidValue("unnamed".to_string()))
    }
}

impl InterestRateIndexTrait for TestIndex {}

fn rd() -> Date {
    Date::new(2024, 1, 31)
}

#[test]
fn add_and_get_indices() {
    let mut store: IndexStore<TestIndex> = IndexStore::new(rd());
    assert_eq!(store.next_available_id(), 1);
    store.add_index(0, index("SOFR", rd())).unwrap();
    store.add_index(3, index("ESTR", rd())).unwrap();
    assert_eq!(store.get_index(3).unwrap().name, Some("ESTR".to_string()));
    assert!(matches!(store.get_index(1), Err(QSError::IndexNotFound(1))));
    assert!(matches!(store.add_index(0, index("X", rd())), Err(QSError::IndexAlreadyExists(0))));
    let wrong = Date::new(2024, 2, 1);
    assert!(matches!(
        store.add_index(5, index("Y", wrong)),
        Err(QSError::ReferenceDateMismatch(a, b)) if a == rd() && b == wrong
    ));
    assert_eq!(store.next_available_id(), 4);
    assert_eq!(store.get_all_indices().len(), 2);
}

#[test]
fn replace_requires_an_existing_id() {
    let mut store: IndexStore<TestIndex> = IndexStore::new(rd());
    assert!(matches!(store.replace_index(2, index("A", rd())), Err(QSError::IndexDoesNotExist(2))));
    store.add_index(2, index("A", rd())).unwrap();
    store.replace_index(2, index("B", rd())).unwrap();
    assert_eq!(store.get_index(2).unwrap().name, Some("B".to_string()));
}

#[test]
fn lookup_by_name_and_name_map() {
    let mut store: IndexStore<TestIndex> = IndexStore::new(rd());
    store.add_index(1, index("SOFR", rd())).unwrap();
    store.add_index(2, index("ESTR", rd())).unwrap();
    assert_eq!(store.get_index_by_name("ESTR".to_string()).unwrap().name, Some("ESTR".to_string()));
    assert!(matches!(
        store.get_index_by_name("TONA".to_string()),
        Err(QSError::IndexNameNotFound(n)) if n == "TONA"
    ));
    let mut names = store.get_index_names().unwrap();
    names.sort();
    assert_eq!(names, vec!["ESTR".to_string(), "SOFR".to_string()]);
    let mut map = store.get_index_map().unwrap();
    map.sort();
    assert_eq!(map, vec![("ESTR".to_string(), 2), ("SOFR".to_string(), 1)]);
}

#[test]
fn currency_curves_and_links() {
    let mut store: IndexStore<TestIndex> = IndexStore::new(rd());
    store.add_currency_curve(Currency::USD, 7);
    store.add_currency_curve(Currency::USD, 8);
    assert_eq!(store.get_currency_curve(Currency::USD).unwrap(), 8);
    assert!(matches!(
        store.get_currency_curve(Currency::EUR),
        Err(QSError::CurrencyCurveNotFound(Currency::EUR))
    ));
    store.add_index(1, index("SOFR", rd())).unwrap();
    store.link_term_structure(1, 42).unwrap();
    assert_eq!(store.get_index(1).unwrap().curve, Some(42));
    assert!(store.link_term_structure(9, 1).is_err());
}

#[test]
fn advancing_moves_every_index() {
    let mut store: IndexStore<TestIndex> = IndexStore::new(rd());
    store.add_index(1, index("SOFR", rd())).unwrap();
    store.add_currency_curve(Currency::USD, 1);
    let moved = store.advance_to_period(Period::new(1, TimeUnit::Months)).unwrap();
    assert_eq!(moved.reference_date(), Date::new(2024, 2, 29));
    assert_eq!(moved.get_index(1).unwrap().reference_date, Date::new(2024, 2, 29));
    assert_eq!(moved.get_currency_curve(Currency::USD).unwrap(), 1);
    let later = store.advance_to_date(Date::new(2024, 3, 15)).unwrap();
    assert_eq!(later.reference_date(), Date::new(2024, 3, 15));
    assert_eq!(later.get_index(1).unwrap().reference_date, Date::new(2024, 3, 15));
}

#[test]
fn swapping_moves_an_index_to_another_id() {
    let mut store: IndexStore<TestIndex> = IndexStore::new(rd());
    store.add_index(1, index("SOFR", rd())).unwrap();
    store.swap_index_by_id(1, 5);
    assert!(store.get_index(1).is_err());
    assert_eq!(store.get_index(5).unwrap().name, Some("SOFR".to_string()));
}

#[test]
fn forecast_curves_follow_currency_mappings() {
    let mut store: IndexStore<TestIndex> = IndexStore::new(rd());
    store.add_index(1, index("SOFR", rd())).unwrap();
    store.add_index(2, index("ESTR", rd())).unwrap();
    store.add_currency_curve(Currency::USD, 1);
    store.add_currency_curve(Currency::EUR, 2);
    store.add_currency_curve(Currency::CLP, 9);
    let (a, b) = store.currency_forecast_curves(Currency::USD, Currency::EUR).unwrap();
    assert_eq!(a.name, Some("SOFR".to_string()));
    assert_eq!(b.name, Some("ESTR".to_string()));
    assert!(matches!(
        store.currency_forecast_curves(Currency::JPY, Currency::EUR),
        Err(QSError::CurrencyCurveNotFound(Currency::JPY))
    ));
    assert!(matches!(
        store.currency_forecast_curves(Currency::USD, Currency::CLP),
        Err(QSError::IndexNotFound(9))
    ));
}

#[test]
fn names_need_every_index_named() {
    let mut store: IndexStore<TestIndex> = IndexStore::new(rd());
    store.add_index(1, index("SOFR", rd())).unwrap();
    store.add_index(2, TestIndex { name: None, reference_date: rd(), curve: None }).unwrap();
    assert!(store.get_index_names().is_err());
    assert!(store.get_index_map().is_err());
}

#[test]
fn advancing_fails_when_an_index_lands_elsewhere() {
    let mut store: IndexStore<TestIndex> = IndexStore::new(rd());
    store.add_index(1, index("SOFR", rd())).unwrap();
    let moved = store.advance_to_period(Period::new(3, TimeUnit::Days)).unwrap();
    assert_eq!(moved.get_index(1).unwrap().name, Some("SOFR".to_string()));
    assert_eq!(moved.get_index(1).unwrap().reference_date, Date::new(2024, 2, 3));
    store.add_index(2, index("STALE", rd())).unwrap();
    assert!(matches!(
        store.advance_to_period(Period::new(3, TimeUnit::Days)),
        Err(QSError::ReferenceDateMismatch(a, b)) if a == Date::new(2024, 2, 3) && b == rd()
    ));
}
