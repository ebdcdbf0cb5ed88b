//! Search requests for the collaborative reference database and the
//! decoding of its XML answers: the query parameters of a request, the
//! records of a response document, and the caller-facing outcome.

pub mod condition;
pub mod crd;
pub mod decimal;
pub mod req;
pub mod res;
pub mod xml;
