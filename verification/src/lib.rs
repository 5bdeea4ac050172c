pub mod format;
pub mod status;
pub mod archive;
pub mod order;
pub mod state;
pub mod convert;
pub mod scan;
