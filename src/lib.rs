pub use class_file::ClassFile;
pub use error::JomError;

pub mod bytes;
pub mod error;
pub mod utf8;
pub mod raw_pool;
pub mod constant_pool;
pub mod resolve;
pub mod pool_builder;
pub mod pool_writer;
pub mod attribute;
pub mod instruction;
pub mod code;
pub mod method;
pub mod field;
pub mod class_file;
pub mod encode;
pub mod round_trip;
