pub mod discountedcashflowpricer;
