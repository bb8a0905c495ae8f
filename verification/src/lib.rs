//! Keeps the helpers of a local cluster in hand: the exposure of the
//! dashboard, the cluster tunnel, network relays and directory mounts.
//!
//! Each of these is owned by an external tool. This library decides whether
//! a resource is there, makes or removes it without starting anything
//! twice, waits within bounds for a helper to come up, merges what the
//! steps of a larger operation report, and tears everything down in order.
//!
//! Starting a process, sleeping and looking at the file system are the
//! caller's part: the operations take them as functions. The process table
//! is read, and signals are sent, through `sysinfo`; lines are read back
//! with `regex`.

pub mod clean_up_and_exit;
pub mod dashboard;
pub mod dependencies;
pub mod init_file;
pub mod launcher;
pub mod load_balancer;
pub mod menu;
pub mod minikube_mount;
pub mod minikube_tunnel;
pub mod pattern;
pub mod poller;
pub mod prompt;
pub mod relay_identity;
pub mod results;
pub mod scanner;
pub mod settings;
pub mod socat_tunnel;
pub mod text;

pub use clean_up_and_exit::clean_up;
pub use dashboard::{create_kubernetes_dashboard_load_balancer, set_dashboard_port};
pub use dependencies::verify_dependencies;
pub use menu::build_options;
pub use minikube_tunnel::create_minikube_tunnel;
pub use results::{render_results, CommandExecutionResult, CommandResultType};
pub use scanner::get_sys_info;
