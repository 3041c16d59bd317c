pub mod cdspricer;
