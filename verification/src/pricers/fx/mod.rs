pub mod fxforwardpricer;
