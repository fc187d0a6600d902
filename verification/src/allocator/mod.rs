pub mod util;
pub mod bin;
