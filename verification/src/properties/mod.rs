//! Laws of the library as a whole: what holds across several calls, of every
//! state, or of the values that go into a call and come out of it.

pub mod cache;
pub mod documents;
pub mod exchange;
pub mod identity;
pub mod keys;
pub mod served;
pub mod stored;
pub mod texts;
pub mod tokens;
pub mod trust;
pub mod values;
