pub mod brownianmotionmodel;
