//! Generator of a program whose dispatch construct spells out, for every
//! number below a power of ten, its digit count, the place value of each
//! digit and the digits read backwards.

pub mod branch;
pub mod digits;
pub mod layout;
pub mod place;
pub mod request;
pub mod template;
pub mod text;
