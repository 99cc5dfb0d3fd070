pub mod rng;
pub mod text;
pub mod bytes;
pub mod error;
pub mod log_types;
pub mod paths;
pub mod log_core;
pub mod frames;
pub mod log_laws;
pub mod lock;
pub mod slabs;
pub mod read_chain;
pub mod write_state;
pub mod evh_config;
pub mod cell;
pub mod channel;
pub mod circuit;
pub mod ser;
pub mod conn_info;
pub mod conn_table;
pub mod accept;
pub mod poll;
pub mod evh_context;
pub mod crypt;
pub mod relay;
pub mod http;
pub mod startup;
pub mod evh_laws;
