//! A cooperative LAN-local DNS resolver core: a query-dispatch and
//! mesh-coordination engine. It classifies each UDP DNS query, answers
//! from host identity and container labels, forwards unresolved in-domain
//! queries to an IPv4 multicast mesh, correlates asynchronous mesh replies
//! back to the original client through an expiring table, and defers
//! out-of-domain queries to a peer-advertised recursive resolver.

pub mod endpoint;
pub mod expiring;
pub mod mesh;
pub mod message;
pub mod names;
pub mod resolve;
pub mod upstream;
