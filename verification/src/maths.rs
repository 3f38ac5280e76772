pub mod autodiff;
