//! ContentFlow core library.
//!
//! The heart of this crate is the batch upload pipeline: an admission-checked,
//! bounded-concurrency coordinator that dispatches upload requests to workers,
//! wraps each attempt in an exponential-backoff retry policy, and aggregates
//! the per-request outcomes into a batch result. Around it stand the text
//! routines for transcript cleaning and search snippet highlighting, the
//! settings store with encrypted API keys, and the OAuth token helpers.
//!
//! Everything here is verified; calls into outside crates (AES-GCM, base64,
//! SHA-256, randomness, URL encoding, the clock) go through small trusted
//! wrappers whose contracts state what the outside code promises.

mod auth;
mod clock;
mod content;
mod crypto;
mod files;
mod schema;
mod search;
mod settings;
mod templates;
mod text;
mod transcript;
mod upload;

pub use auth::{
    auth_state_of, generate_pkce_challenge, needs_refresh, tokens_from_response,
    AuthCallbackRequest, AuthError, AuthState, AuthTokens, AuthUrlResponse, PkcePair,
};
pub use content::{build_content_update, ContentWithTemplate, UpdateContentRequest};
pub use files::{
    ascii_lower_chars, ascii_upper_chars, extension_of, folder_label, format_from_filename,
    is_video_extension, quality_tags_for_height, FileImportError, FileImportRequest,
};
pub use schema::{
    ContentSources, ContentStatus, ContentType, FileStatus, FolderType, Orientation,
    ProjectFiles, ProjectStatus, TableInfo, TemplateType,
};
pub use settings::{
    lemma_sealed_key_opens, lemma_stored_key_round_trips, opened_key_blob, sealed_key_text,
    services_unique, ApiKey, ApiKeyInfo, ApiKeyUpdate, BrandSettings, FileOrganization,
    Preferences, Settings, SettingsService, UsageStats,
};
pub use templates::{
    check_template_deletable, check_template_updatable, CreateTemplateRequest,
    UpdateTemplateRequest,
};

pub use search::{
    create_highlighted_snippet, search_window, validate_query, TranscriptSearchRequest,
    DEFAULT_SEARCH_LIMIT, MAX_SEARCH_LIMIT, SNIPPET_WINDOW_WORDS,
};
pub use transcript::{
    build_import_result, build_transcript_record, clean_srt_content, content_preview, count_words,
    is_transcript_extension, ExtractTagsRequest, ImportedTranscript, TranscriptImportError,
    TranscriptImportRequest, TranscriptImportResult,
};
pub use auth::{
    lemma_sealed_tokens_open, opened_token_blob, sealed_token_text, DescriptAuth,
};
pub use upload::{
    concat_events, expand_batch_request, lemma_in_flight_bounded, process_upload,
    progress_events, request_trace, retry_events, retry_with_script, started_event, submit_batch,
    terminal_event, terminal_outcome, Reporter, BatchUploadRequest, BatchUploadResult,
    CreateProjectRequest, DescriptError, DescriptProject, ExportInstructions, ProgressSink,
    RetryRun, RetryState, UploadCoordinator, UploadEvent, UploadFileRequest, UploadOutcome,
    UploadRequest, UploadStatus, UploadTransport, INITIAL_RETRY_DELAY, MAX_BATCH_SIZE,
    MAX_CONCURRENT_UPLOADS, MAX_RETRIES,
};
