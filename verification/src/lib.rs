//! Request-serving core of a small web toolkit: a route table with
//! specificity-ordered matching, the request and response model, typed
//! extraction, error-to-response conversion and the decisions of the
//! connection server.

pub mod config;
pub mod error;
pub mod extractor;
pub mod http;
pub mod query;
pub mod route;
pub mod scalar;
pub mod server;
pub mod service;
pub mod string_map;
pub mod text;

pub use config::{Config, Database, Server, Ssl};
pub use error::{Fault, MadenError};
pub use extractor::{extract_path_param, FromRequest, Json, Path, Query};
pub use http::{HttpMethod, IntoResponse, Request, Response};
pub use route::{Maden, Registration, RouteMatch};
pub use scalar::{FromParam, QueryValue};
pub use service::{dispatch, Dispatch};
pub use string_map::StringMap;
