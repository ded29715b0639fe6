pub mod agent;
pub mod answer_format;
pub mod answer_laws;
pub mod answer_marks;
pub mod cancel;
pub mod cli;
pub mod features;
pub mod headers;
pub mod ink;
pub mod input;
pub mod intent;
pub mod internet;
pub mod internet_laws;
pub mod json;
pub mod markdown_laws;
pub mod path_laws;
pub mod paths;
pub mod plan_laws;
pub mod provider;
pub mod provider_laws;
pub mod repl;
pub mod runtime;
pub mod safety;
pub mod safety_laws;
pub mod session;
pub mod session_laws;
pub mod table_laws;
pub mod terminal_markdown;
pub mod terminal_width;
pub mod text;
pub mod text_laws;
pub mod text_sort;
pub mod ui;
pub mod workspace;
