pub mod frame_allocator;
pub mod paging;
pub mod heap;
