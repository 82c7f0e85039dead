pub mod apps;
pub mod calc;
pub mod files;
