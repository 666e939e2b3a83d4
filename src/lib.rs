pub mod hex;
pub mod json;
pub mod rpc;
pub mod session;
pub mod work;
