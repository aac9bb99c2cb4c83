//! The codecs of booleans, integers and strings.

pub mod bool;
pub mod sint;
pub mod str;
pub mod uint;
