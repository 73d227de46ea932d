//! A minimal class-file front end and interpreter: a big-endian reader, a
//! constant-pool and class-structure parser, and a stack machine that runs
//! one method's code against integer arguments.
pub mod class;
pub mod error;
pub mod frame;
pub mod pool;
pub mod reader;

pub use class::{Attribute, Class, Field};
pub use error::VmError;
pub use frame::{exec, invoke, Frame};
pub use pool::{Const, ConstPool};
pub use reader::Loader;
