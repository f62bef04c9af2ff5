pub mod buffer;
pub mod connection;
pub mod http;
pub mod status;
pub mod table;
pub mod text;
pub mod ssl_tls;
