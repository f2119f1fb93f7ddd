pub mod caterpie;
