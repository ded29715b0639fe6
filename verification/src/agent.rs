pub mod approval_text;
pub mod commit_audit;
pub mod decision;
pub mod run;
pub mod run_laws;
pub mod summary;
pub mod tools;
pub mod types;
pub mod walk;
pub mod walk_laws;
pub mod record_laws;
pub mod work_laws;
pub mod workspace;
