#![allow(non_camel_case_types)]

pub mod context;
pub mod model;
pub mod nfs;
pub mod nfs3;
pub mod nfs4;
pub mod nfs4_conduct;
pub mod nfs4_handlers;
pub mod nfs4_state;
pub mod random;
pub mod rpc;
pub mod table;
pub mod vfs;
pub mod word;
pub mod xdr;
