//! The service's own state: the task registry and how a task is started.
pub mod cert_tasks;
pub mod app_ctx;
pub mod reports;
