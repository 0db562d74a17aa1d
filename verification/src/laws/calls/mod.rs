//! What a call of each function comes to, said of its arguments, of its result,
//! and of what it leaves behind.

pub mod changes;
pub mod conflicts;
pub mod engines;
pub mod layout;
pub mod pulling;
pub mod pushing;
pub mod queries;
pub mod store;
pub mod stream;
pub mod texts;
