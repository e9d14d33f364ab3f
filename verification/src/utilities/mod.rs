//! Character samples, random codes and the partition of work among
//! workers.

pub mod partition;
pub mod random;
pub mod samples;

pub use partition::{distribute_paths, partition};
pub use random::{confirm, confirmation_code, get_ran_string_number, number_string};
pub use samples::{get_sample, PasswordSample};
