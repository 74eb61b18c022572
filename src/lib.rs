pub mod tree;
pub mod diff;
pub mod codec;
pub mod timestamp;
pub mod record;
pub mod pipeline;
