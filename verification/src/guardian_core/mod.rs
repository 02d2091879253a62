pub mod incident;
pub mod interceptor;
pub mod quarantine;
pub mod os_agnostic;
