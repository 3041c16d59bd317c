//! Collateral discounting: which curve discounts an instrument.
use vstd::prelude::*;

use crate::currencies::Currency;
use crate::errors::QSError;
use crate::indices::MarketIndex;

verus! {

/// The asset class of a discountable instrument.
#[derive(Clone, Copy, Debug, PartialEq, Eq, Structural)]
pub enum AssetClass {
    Rates,
    Fx,
    Credit,
    Equity,
}

/// Something whose discount curve a discount policy chooses, from its asset
/// class and currency.
pub trait Discountable {
    /// The asset class of the instrument, as a value of the specification.
    spec fn spec_asset_class(&self) -> AssetClass;

    /// The currency of the instrument, as a value of the specification.
    spec fn spec_currency(&self) -> Currency;

    /// The asset class of the instrument.
    fn asset_class(&self) -> (r: AssetClass)
        ensures
            r == self.spec_asset_class(),
    ;

    /// The currency of the instrument.
    fn currency(&self) -> (r: Currency)
        ensures
            r == self.spec_currency(),
    ;
}

/// A rule that picks the discount curve of an instrument (for example the CSA
/// collateral curve of a counterparty).
pub trait DiscountPolicy {
    /// The index whose curve discounts an instrument of the asset class and
    /// currency, or the error, as a value of the specification.
    spec fn spec_accept(&self, asset_class: AssetClass, currency: Currency) -> Result<MarketIndex, QSError>;

    /// The indices whose curves the policy may discount with, as a value of
    /// the specification.
    spec fn spec_discount_indices(&self) -> Seq<MarketIndex>;

    /// The index whose curve discounts `target`, or an error when the policy
    /// does not cover it.
    fn accept<D: Discountable>(&self, target: &D) -> (r: Result<MarketIndex, QSError>)
        ensures
            r == self.spec_accept(target.spec_asset_class(), target.spec_currency()),
    ;

    /// All the indices whose curves the policy may discount with.
    fn discount_indices(&self) -> (r: Vec<MarketIndex>)
        ensures
            r@ == self.spec_discount_indices(),
    ;
}

/// What an optional discount policy answers for `target`: nothing without a
/// policy, else the policy's acceptance.
pub open spec fn policy_acceptance<P: DiscountPolicy, D: Discountable>(policy: Option<P>, target: D) -> Option<
    Result<MarketIndex, QSError>,
> {
    match policy {
        Some(p) => Some(p.spec_accept(target.spec_asset_class(), target.spec_currency())),
        None => None,
    }
}

} // verus!
