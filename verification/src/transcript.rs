//! Transcript import: file classification, SRT cleaning, word counting, and
//! assembly of the imported record. Reading the file and storing the record
//! are the host's work; everything that decides or computes is here.

use vstd::prelude::*;

use crate::text::{
    chars_of, contains_sub, find_in, join_spaced, join_with_space, lines_of, parses_as_u32,
    split_lines, split_words, string_from_chars, str_eq, trim_chars, trim_of, u32_numeral,
    words_of,
};

verus! {

/// A batch of transcript files the caller wants imported.
#[derive(Debug)]
pub struct TranscriptImportRequest {
    pub file_paths: Vec<String>,
}

/// One successfully imported transcript.
#[derive(Debug)]
pub struct ImportedTranscript {
    pub id: String,
    pub file_path: String,
    pub filename: String,
    pub content: String,
    pub word_count: usize,
    pub language: String,
    pub status: String,
}

/// Why one file could not be imported.
#[derive(Debug)]
pub struct TranscriptImportError {
    pub file_path: String,
    pub error: String,
}

/// Aggregate of one import run: `success` means no file failed.
#[derive(Debug)]
pub struct TranscriptImportResult {
    pub success: bool,
    pub imported_transcripts: Vec<ImportedTranscript>,
    pub errors: Vec<TranscriptImportError>,
}

/// Caller's request to analyze one transcript.
#[derive(Debug)]
pub struct ExtractTagsRequest {
    pub transcript_id: String,
}

/// The transcript file extensions accepted for import.
pub open spec fn valid_transcript_extension(e: Seq<char>) -> bool {
    e == "txt"@ || e == "srt"@ || e == "vtt"@
}

/// Is `ext` (already lowercased) an accepted transcript extension?
pub fn is_transcript_extension(ext: &str) -> (r: bool)
    ensures
        r == valid_transcript_extension(ext@),
{
    str_eq(ext, "txt") || str_eq(ext, "srt") || str_eq(ext, "vtt")
}

/// A trimmed SRT line that carries actual content: not empty, not a cue
/// counter (a line that parses as a `u32`), and not a timestamp line (one
/// containing `-->`).
pub open spec fn srt_keep(t: Seq<char>) -> bool {
    &&& t.len() > 0
    &&& !u32_numeral(t)
    &&& !contains_sub(t, seq!['-', '-', '>'])
}

/// The trimmed content lines among `ls`, in order.
pub open spec fn srt_kept_lines(ls: Seq<Seq<char>>) -> Seq<Seq<char>>
    decreases ls.len(),
{
    if ls.len() == 0 {
        Seq::empty()
    } else if srt_keep(trim_of(ls.last())) {
        srt_kept_lines(ls.drop_last()).push(trim_of(ls.last()))
    } else {
        srt_kept_lines(ls.drop_last())
    }
}

/// What cleaning an SRT text yields: its trimmed content lines joined by
/// single spaces, with cue counters, timestamp lines and blank lines gone.
pub open spec fn srt_clean_of(s: Seq<char>) -> Seq<char> {
    join_with_space(srt_kept_lines(lines_of(s)))
}

/// Strip SRT structure from `srt_content`, keeping only the spoken lines.
pub fn clean_srt_content(srt_content: &str) -> (r: String)
    ensures
        r@ == srt_clean_of(srt_content@),
{
    let chars = chars_of(srt_content);
    let lines = split_lines(&chars);
    let ghost spec_lines = lines@.map_values(|l: Vec<char>| l@);
    let mut arrow: Vec<char> = Vec::new();
    arrow.push('-');
    arrow.push('-');
    arrow.push('>');
    proof {
        assert(arrow@ =~= seq!['-', '-', '>']);
        assert(spec_lines.take(0) =~= Seq::<Seq<char>>::empty());
    }
    let mut kept: Vec<Vec<char>> = Vec::new();
    let m = lines.len();
    for i in 0..m
        invariant
            m == lines@.len(),
            spec_lines == lines@.map_values(|l: Vec<char>| l@),
            arrow@ == seq!['-', '-', '>'],
            kept@.map_values(|l: Vec<char>| l@) =~= srt_kept_lines(spec_lines.take(i as int)),
    {
        let t = trim_chars(&lines[i]);
        proof {
            assert(spec_lines.take(i + 1).drop_last() =~= spec_lines.take(i as int));
            assert(spec_lines.take(i + 1).last() == spec_lines[i as int]);
            assert(t@ == trim_of(spec_lines[i as int]));
        }
        let keep = if t.len() == 0 {
            false
        } else if parses_as_u32(&t) {
            false
        } else {
            match find_in(&t, &arrow) {
                Some(_) => false,
                None => true,
            }
        };
        if keep {
            proof {
                let prev = kept@.map_values(|l: Vec<char>| l@);
                assert((kept@.push(t)).map_values(|l: Vec<char>| l@) =~= prev.push(t@));
            }
            kept.push(t);
        }
    }
    proof {
        assert(spec_lines.take(m as int) =~= spec_lines);
    }
    let joined = join_spaced(&kept);
    string_from_chars(&joined)
}

/// Number of whitespace-separated words in `text`.
pub fn count_words(text: &str) -> (r: usize)
    ensures
        r == words_of(text@).len(),
{
    let chars = chars_of(text);
    let words = split_words(&chars);
    proof {
        assert(words@.map_values(|w: Vec<char>| w@).len() == words@.len());
    }
    words.len()
}

/// What the imported content of a transcript file is: SRT files are
/// cleaned, anything else is kept as read.
pub open spec fn imported_content_of(extension: Seq<char>, content: Seq<char>) -> Seq<char> {
    if extension == "srt"@ {
        srt_clean_of(content)
    } else {
        content
    }
}

/// Build the imported record for one transcript file whose content has been
/// read. The extension must already be extracted and lowercased; the caller
/// supplies the fresh record id. Rejected outright: a file whose extension
/// is not an accepted transcript format, and one whose content is blank.
pub fn build_transcript_record(
    id: String,
    file_path: String,
    filename: String,
    extension: &str,
    content: String,
) -> (r: Result<ImportedTranscript, String>)
    ensures
        !valid_transcript_extension(extension@) ==> (r matches Err(e) && e@
            == "Invalid transcript format"@),
        valid_transcript_extension(extension@) && trim_of(content@).len() == 0 ==> (r matches Err(
            e,
        ) && e@ == "Transcript file is empty"@),
        valid_transcript_extension(extension@) && trim_of(content@).len() > 0 ==> (r matches Ok(t)
            && {
            &&& t.id == id
            &&& t.file_path == file_path
            &&& t.filename == filename
            &&& t.content@ == imported_content_of(extension@, content@)
            &&& t.word_count == words_of(imported_content_of(extension@, content@)).len()
            &&& t.language@ == "en"@
            &&& t.status@ == "imported"@
        }),
{
    if !is_transcript_extension(extension) {
        return Err("Invalid transcript format".to_owned());
    }
    let content_chars = chars_of(&content);
    let trimmed = trim_chars(&content_chars);
    if trimmed.len() == 0 {
        return Err("Transcript file is empty".to_owned());
    }
    let cleaned = if str_eq(extension, "srt") {
        clean_srt_content(&content)
    } else {
        content
    };
    let word_count = count_words(&cleaned);
    Ok(
        ImportedTranscript {
            id,
            file_path,
            filename,
            content: cleaned,
            word_count,
            language: "en".to_owned(),
            status: "imported".to_owned(),
        },
    )
}

/// The preview shown in transcript listings: long content is cut at 200
/// characters and marked with an ellipsis.
pub fn content_preview(content: &str) -> (r: String)
    ensures
        content@.len() > 200 ==> r@ == content@.take(200) + seq!['.', '.', '.'],
        content@.len() <= 200 ==> r@ == content@,
{
    let chars = chars_of(content);
    if chars.len() > 200 {
        let mut cut: Vec<char> = Vec::new();
        for i in 0..200usize
            invariant
                chars@.len() > 200,
                chars@ == content@,
                cut@ =~= content@.take(i as int),
        {
            cut.push(chars[i]);
        }
        cut.push('.');
        cut.push('.');
        cut.push('.');
        proof {
            assert(cut@ =~= content@.take(200) + seq!['.', '.', '.']);
        }
        string_from_chars(&cut)
    } else {
        string_from_chars(&chars)
    }
}

/// Aggregate an import run; the run succeeded only when no file failed.
pub fn build_import_result(
    imported_transcripts: Vec<ImportedTranscript>,
    errors: Vec<TranscriptImportError>,
) -> (r: TranscriptImportResult)
    ensures
        r.success == (errors@.len() == 0),
        r.imported_transcripts == imported_transcripts,
        r.errors == errors,
{
    let success = errors.len() == 0;
    TranscriptImportResult { success, imported_transcripts, errors }
}

} // verus!
