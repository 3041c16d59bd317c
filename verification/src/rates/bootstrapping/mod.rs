//! Curve bootstrapping: configurations and the planning of a multi-curve bootstrap.
pub mod bootstrapcalibrationinstrument;
pub mod bootstrapdiscountpolicy;
pub mod creditcurvebootstrapper;
pub mod creditcurveconfiguration;
pub mod curveconfiguration;
pub mod multicurvebootstrapper;
