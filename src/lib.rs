/// The exchange of a client with a server: the client's call step.
pub mod client;
/// The wire format: encoding and decoding of request and response frames.
pub mod codec;
/// The request form of the terminal front end: editing, key handling, building requests.
pub mod form;
/// Sample handlers: a greeting and an echo.
pub mod handlers;
/// The message model: methods, status codes, headers, requests and responses.
pub mod message;
/// The dispatch table from (path, method) to handlers.
pub mod router;
/// The server's step for one connection.
pub mod server;
