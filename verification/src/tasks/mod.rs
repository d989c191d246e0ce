//! The remediation and audit tasks, each split into the decisions it makes,
//! which are here, and the commands it runs, which are the program's.
pub mod file_permissions_audit;
pub mod shared_folders_audit;
pub mod hosts_file_audit;
pub mod scheduled_tasks_audit;
pub mod dns_settings_audit;
pub mod account_permissions;
pub mod audit_policy;
pub mod firewall;
pub mod service_management;
pub mod security_hardening;
pub mod prohibited_media;
pub mod user_management;
pub mod software_management;
pub mod software_update;
