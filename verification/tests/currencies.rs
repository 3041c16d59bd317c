use quantsupport::currencies::Currency;

#[test]
fn codes_parse_back() {
    let all = [
        Currency::USD, Currency::EUR, Currency::GBP, Currency::JPY, Currency::CHF, Currency::CAD,
        Currency::AUD, Currency::CNY, Currency::SEK, Currency::NOK, Currency::DKK, Currency::BRL,
        Currency::CLP, Currency::CLF, Currency::COP, Currency::MXN, Currency::PEN, Currency::ZAR,
    ];
    for c in all {
        assert_eq!(Currency::from_code(c.code()).unwrap(), c);
    }
    assert!(Currency::from_code("usd").is_err());
    assert_eq!("CLF".parse::<Currency>().unwrap(), Currency::CLF);
}
