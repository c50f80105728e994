//! A fixed-capacity buffer pool: reference-counted page frames and a
//! second-chance (CLOCK) replacement policy.
pub mod clock;
pub mod frame;
pub mod page;
pub mod sweep;

pub use clock::ClockSweep;
pub use clock::ClockSweepError;
pub use clock::PoolAlgorithm;
pub use frame::BufferFrame;
pub use frame::InnerBufferFrame;
pub use page::page_offset;
pub use page::Page;
pub use page::PageId;
