use vstd::prelude::*;

verus! {

/// What the rate limiter and the request builders read of a model profile.
#[derive(Clone, Debug)]
pub struct ModelEndpoint {
    pub id: String,
    pub provider: String,
    pub base_url: String,
    pub model: String,
    pub thinking_mode: String,
}

/// An imported novel.
#[derive(Clone, Debug)]
pub struct Novel {
    pub id: String,
    pub title: String,
    pub source_path: String,
    pub encoding: String,
    pub status: String,
    pub detected_chapters: bool,
    pub created_at: String,
}

/// One chapter of a novel, with its validation and review state.
#[derive(Clone, Debug)]
pub struct Chapter {
    pub id: String,
    pub novel_id: String,
    pub index: i64,
    pub title: String,
    pub original_text: String,
    pub is_valid: bool,
    pub validation_reason: Option<String>,
    pub corrected_text: Option<String>,
    pub validation_status: String,
    pub review_status: String,
}

/// A run of consecutive chapters processed together.
#[derive(Clone, Debug)]
pub struct ChapterBatch {
    pub id: String,
    pub novel_id: String,
    pub batch_index: i64,
    pub label: String,
    pub start_chapter: i64,
    pub end_chapter: i64,
    pub status: String,
    pub created_at: String,
}

/// A background validation or review job and its progress.
#[derive(Clone, Debug)]
pub struct Job {
    pub id: String,
    pub novel_id: String,
    pub job_type: String,
    pub status: String,
    pub current_chapter: i64,
    pub total_chapters: i64,
    pub message: String,
    pub created_at: String,
    pub updated_at: String,
}

/// One logged model call.
#[derive(Clone, Debug)]
pub struct AiLog {
    pub id: String,
    pub novel_id: Option<String>,
    pub profile_id: String,
    pub action: String,
    pub chapter_title: Option<String>,
    pub status: String,
    pub content: String,
    pub reasoning: Option<String>,
    pub raw_response: Option<String>,
    pub input_tokens: Option<i64>,
    pub output_tokens: Option<i64>,
    pub created_at: String,
}

/// User settings.
#[derive(Clone, Debug)]
pub struct AppSettings {
    pub export_dir: Option<String>,
    pub chapter_batch_size: i64,
    pub review_parallelism: i64,
    pub selected_profile_id: Option<String>,
}

/// The chapters found in a text, and whether chapter headings were recognised.
#[derive(Clone, Debug)]
pub struct SplitResult {
    pub chapters: Vec<Chapter>,
    pub detected_chapters: bool,
}

/// A novel with its chapters and batches.
#[derive(Clone, Debug)]
pub struct NovelDetail {
    pub novel: Novel,
    pub chapters: Vec<Chapter>,
    pub batches: Vec<ChapterBatch>,
}

/// The text a model returned, with what was measured of the call.
#[derive(Clone, Debug)]
pub struct ModelOutput {
    pub text: String,
    pub reasoning: Option<String>,
    pub raw_response: String,
    pub input_chars: usize,
    pub output_chars: usize,
    pub elapsed_ms: u128,
    pub retried_without_thinking: bool,
}

/// One check of a profile diagnosis.
#[derive(Clone, Debug)]
pub struct DiagnosisCheck {
    pub name: String,
    pub status: String,
    pub message: String,
}

/// The outcome of diagnosing a model profile.
#[derive(Clone, Debug)]
pub struct ModelDiagnosis {
    pub status: String,
    pub recommended_thinking_mode: Option<String>,
    pub checks: Vec<DiagnosisCheck>,
}

} // verus!
