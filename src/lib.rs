//! Size-annotated directory listings and volume discovery for a disk-space
//! explorer. The functions here take what was read from the filesystem as
//! plain values and decide what is listed, how large it is and in what order.
pub mod entry;
pub mod listing;
pub mod size;
pub mod sort;
pub mod volumes;
