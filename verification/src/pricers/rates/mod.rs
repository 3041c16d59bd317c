pub mod closedformblackcapletpricer;
pub mod ratefuturespricer;
