pub mod blackmceuropeanoptionpricer;
