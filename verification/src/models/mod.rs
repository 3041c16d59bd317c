//! Stochastic and market-data models.
pub mod brownianmotion;
pub mod modelconfiguration;
pub mod montecarloengine;
pub mod simplemodel;
