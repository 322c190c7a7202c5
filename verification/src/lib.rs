use vstd::prelude::*;

pub mod addordermessages;
pub mod bytes;
pub mod enums;
pub mod framing;
pub mod helpers;
pub mod messageheader;
pub mod modifyordermessages;
pub mod noiimessages;
pub mod orderbook;
mod random;
pub mod stockdirectory;
pub mod stockmessages;
pub mod systemmessages;
pub mod trademessages;
pub mod types;

pub use types::Price4;

verus! {

} // verus!
