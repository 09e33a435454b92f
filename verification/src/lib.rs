pub mod chapters;
pub mod domain;
pub mod jobs;
pub mod json;
pub mod model_support;
pub mod numfmt;
pub mod prompts;
pub mod provider;
pub mod rate_limit;
pub mod review;
pub mod settings;
pub mod task_control;
pub mod text;
pub mod update;
pub mod validate;
