//! The decisions of a Stratum V2 mining pool: which ids its downstreams get, what they are sent
//! and in which frames, and what its tasks do after each thing that happens.
pub mod accept;
pub mod coinbase;
pub mod delivery;
pub mod downstream;
pub mod error;
pub mod factory;
pub mod frame;
pub mod message;
pub mod new_template;
pub mod pool;
pub mod prev_hash;
pub mod receiver;
pub mod run;
pub mod template;
