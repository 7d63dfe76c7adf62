//! What travels between the API server and its clients.

pub mod etcd;
