pub mod grpc;
pub mod registry;
pub mod schema;
pub mod template;
pub mod text;
