pub mod archive;
pub mod audit;
pub mod batch;
pub mod bundle;
pub mod cli;
pub mod collect;
pub mod config;
pub mod container;
pub mod digest;
pub mod error;
pub mod image_info;
pub mod issuing;
pub mod keychain;
pub mod menu;
pub mod order;
pub mod paths;
pub mod pki;
pub mod provenance;
pub mod reader;
pub mod scan;
pub mod setup;
pub mod signature;
pub mod signing;
pub mod text;
