pub mod common;
pub mod context;
pub mod endpoint;
pub mod lines;
pub mod number;
pub mod order;
pub mod parser;
pub mod pieces;
pub mod readback;
pub mod registry;
pub mod request;
pub mod response;
pub mod samovar;
pub mod session;
pub mod staticserver;
pub mod status;
pub mod text;
pub mod uri;
