//! What holds of the operations, of each and of several together.
pub mod authority;
pub mod books;
pub mod cancelling;
pub mod claiming;
pub mod claims;
pub mod contributing;
pub mod creating;
pub mod entries;
pub mod frame;
pub mod history;
pub mod moving;
pub mod numbers;
pub mod paging;
pub mod prizes;
pub mod reading;
pub mod replay;
pub mod rotating;
pub mod rows;
pub mod selecting;
pub mod shares;
pub mod submissions;
pub mod submitting;
pub mod tokens;
pub mod writes;
