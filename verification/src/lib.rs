#![allow(non_snake_case)]
#![allow(non_upper_case_globals)]

pub mod close;
pub mod driver;
pub mod laws;
pub mod legacy;
pub mod ready;
pub mod runtime;
pub mod scheduled_io;
pub mod slab;
pub mod state;
pub mod task;
pub mod thread_id;
pub mod ucred;
pub mod vec_wrapper;
