//! A small container-orchestration control plane: typed resource objects,
//! the informer cache, the scheduler, and the replica-set and horizontal pod
//! autoscaler control loops, with their behaviour stated as contracts.

pub mod api_server;
pub mod config;
pub mod informer;
pub mod keyed;
pub mod models;
pub mod objects;
pub mod podautoscaler;
pub mod replicaset;
pub mod rkubectl;
pub mod scheduler;
pub mod store;
pub mod text;
pub mod time;
pub mod work_queue;
