pub mod instruments;
pub mod orderbook;
pub mod subscriber;
pub mod ticker;
