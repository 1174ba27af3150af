pub mod fstar;
