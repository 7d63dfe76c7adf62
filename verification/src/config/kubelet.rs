//! Configuration of the node agent.

use vstd::prelude::*;
use vstd::string::StringExecFns;

verus! {

/// The settings of the node agent.
#[derive(Debug, PartialEq, Eq)]
pub struct KubeletConfig {
    /// The directory that holds the static pods to run, or the path of one
    /// static pod file.
    pub static_pod_path: String,
    /// How often the node's status is computed, in seconds.
    pub node_status_update_frequency: u64,
    /// How often the node's status is posted when it has not changed, in
    /// seconds. A change is posted at once.
    pub node_status_report_frequency: u64,
    /// How often the status of the pods is computed, in seconds.
    pub pod_status_update_frequency: u64,
    /// Where the API server listens.
    pub api_server_url: String,
    /// Where the API server serves watches.
    pub api_server_watch_url: String,
}

impl Default for KubeletConfig {
    fn default() -> (config: Self)
        ensures
            config.static_pod_path@ == "/etc/rminik8s/manifests"@,
            config.node_status_update_frequency == 10,
            config.node_status_report_frequency == 300,
            config.pod_status_update_frequency == 10,
            config.api_server_url@ == "http://localhost:8080"@,
            config.api_server_watch_url@ == "ws://localhost:8080"@,
    {
        KubeletConfig {
            static_pod_path: String::from_str("/etc/rminik8s/manifests"),
            node_status_update_frequency: 10,
            node_status_report_frequency: 300,
            pod_status_update_frequency: 10,
            api_server_url: String::from_str("http://localhost:8080"),
            api_server_watch_url: String::from_str("ws://localhost:8080"),
        }
    }
}

} // verus!
