//! Media file classification: extension extraction and validation, quality
//! tags derived from resolution, and the labels used to organize imported
//! files. Probing files and the store is the host's work.

use vstd::prelude::*;

use crate::text::{chars_of, string_from_chars, str_eq};

verus! {

/// A batch of media files the caller wants imported.
#[derive(Debug)]
pub struct FileImportRequest {
    pub file_paths: Vec<String>,
}

/// Why one file could not be imported.
#[derive(Debug)]
pub struct FileImportError {
    pub file_path: String,
    pub error: String,
}

/// Index of the last occurrence of `c` in `s`, or `-1`.
pub open spec fn rfind_char(s: Seq<char>, c: char) -> int
    decreases s.len(),
{
    if s.len() == 0 {
        -1
    } else if s.last() == c {
        s.len() - 1
    } else {
        rfind_char(s.drop_last(), c)
    }
}

pub proof fn lemma_rfind_char(s: Seq<char>, c: char)
    ensures
        -1 <= rfind_char(s, c) < s.len(),
        forall|k: int| rfind_char(s, c) < k < s.len() ==> s[k] != c,
        rfind_char(s, c) >= 0 ==> s[rfind_char(s, c)] == c,
    decreases s.len(),
{
    if s.len() > 0 && s.last() != c {
        lemma_rfind_char(s.drop_last(), c);
        assert forall|k: int| rfind_char(s, c) < k < s.len() implies s[k] != c by {
            if k < s.len() - 1 {
                assert(s.drop_last()[k] == s[k]);
            }
        }
    }
}

/// The final component of a path: everything after the last slash.
pub open spec fn file_name_of(p: Seq<char>) -> Seq<char> {
    p.subrange(rfind_char(p, '/') + 1, p.len() as int)
}

/// The extension of a path, as `Path::extension` reports it: the part of
/// the file name after its last dot, none when there is no dot or when the
/// only dot leads a hidden file's name.
pub open spec fn path_extension_of(p: Seq<char>) -> Option<Seq<char>> {
    let f = file_name_of(p);
    let d = rfind_char(f, '.');
    if d <= 0 {
        None
    } else {
        Some(f.subrange(d + 1, f.len() as int))
    }
}

/// `c` with an ASCII capital folded to its small form.
pub open spec fn ascii_lower_char(c: char) -> char {
    if 'A' as int <= c as int && c as int <= 'Z' as int {
        (c as int + 32) as char
    } else {
        c
    }
}

/// `s` with ASCII capitals folded to small letters.
pub open spec fn ascii_lower_of(s: Seq<char>) -> Seq<char> {
    s.map_values(|c: char| ascii_lower_char(c))
}

/// `c` with an ASCII small letter raised to its capital form.
pub open spec fn ascii_upper_char(c: char) -> char {
    if 'a' as int <= c as int && c as int <= 'z' as int {
        (c as int - 32) as char
    } else {
        c
    }
}

/// `s` with ASCII small letters raised to capitals.
pub open spec fn ascii_upper_of(s: Seq<char>) -> Seq<char> {
    s.map_values(|c: char| ascii_upper_char(c))
}

/// Fold ASCII capitals in `v` to small letters.
pub fn ascii_lower_chars(v: &Vec<char>) -> (r: Vec<char>)
    ensures
        r@ == ascii_lower_of(v@),
{
    let n = v.len();
    let mut r: Vec<char> = Vec::new();
    for i in 0..n
        invariant
            n == v@.len(),
            r@ =~= v@.subrange(0, i as int).map_values(|c: char| ascii_lower_char(c)),
    {
        let c = v[i];
        if c >= 'A' && c <= 'Z' {
            let lowered = ((c as u8) + 32) as char;
            proof {
                assert(lowered == ascii_lower_char(c));
            }
            r.push(lowered);
        } else {
            r.push(c);
        }
        proof {
            assert(v@.subrange(0, i + 1).drop_last() =~= v@.subrange(0, i as int));
            assert(r@ =~= v@.subrange(0, i + 1).map_values(|c: char| ascii_lower_char(c)));
        }
    }
    proof {
        assert(v@.subrange(0, n as int) =~= v@);
    }
    r
}

/// Raise ASCII small letters in `v` to capitals.
pub fn ascii_upper_chars(v: &Vec<char>) -> (r: Vec<char>)
    ensures
        r@ == ascii_upper_of(v@),
{
    let n = v.len();
    let mut r: Vec<char> = Vec::new();
    for i in 0..n
        invariant
            n == v@.len(),
            r@ =~= v@.subrange(0, i as int).map_values(|c: char| ascii_upper_char(c)),
    {
        let c = v[i];
        if c >= 'a' && c <= 'z' {
            let raised = ((c as u8) - 32) as char;
            proof {
                assert(raised == ascii_upper_char(c));
            }
            r.push(raised);
        } else {
            r.push(c);
        }
        proof {
            assert(v@.subrange(0, i + 1).drop_last() =~= v@.subrange(0, i as int));
            assert(r@ =~= v@.subrange(0, i + 1).map_values(|c: char| ascii_upper_char(c)));
        }
    }
    proof {
        assert(v@.subrange(0, n as int) =~= v@);
    }
    r
}

/// Extract a path's extension, folded to small letters.
pub fn extension_of(path: &str) -> (r: Option<String>)
    ensures
        match r {
            Some(e) => path_extension_of(path@) is Some && e@ == ascii_lower_of(
                path_extension_of(path@)->0,
            ),
            None => path_extension_of(path@) is None,
        },
{
    let chars = chars_of(path);
    let n = chars.len();
    // find the last slash
    let mut slash: usize = 0;
    let mut has_slash = false;
    let mut i: usize = 0;
    while i < n
        invariant
            n == chars@.len(),
            i <= n,
            has_slash ==> slash < i && chars@[slash as int] == '/',
            has_slash ==> forall|k: int| slash < k < i ==> chars@[k] != '/',
            !has_slash ==> forall|k: int| 0 <= k < i ==> chars@[k] != '/',
        decreases n - i,
    {
        if chars[i] == '/' {
            slash = i;
            has_slash = true;
        }
        i = i + 1;
    }
    proof {
        lemma_rfind_char(chars@, '/');
        if has_slash {
            assert(rfind_char(chars@, '/') == slash);
        } else {
            assert(rfind_char(chars@, '/') == -1);
        }
    }
    let fstart: usize = if has_slash {
        slash + 1
    } else {
        0
    };
    let ghost fname = file_name_of(path@);
    proof {
        assert(fname =~= chars@.subrange(fstart as int, n as int));
    }
    // find the last dot within the file name
    let mut dot: usize = 0;
    let mut has_dot = false;
    let mut j: usize = fstart;
    while j < n
        invariant
            n == chars@.len(),
            fstart <= j <= n,
            has_dot ==> fstart <= dot && dot < j && chars@[dot as int] == '.',
            has_dot ==> forall|k: int| dot < k < j ==> chars@[k] != '.',
            !has_dot ==> forall|k: int| fstart <= k < j ==> chars@[k] != '.',
        decreases n - j,
    {
        if chars[j] == '.' {
            dot = j;
            has_dot = true;
        }
        j = j + 1;
    }
    proof {
        lemma_rfind_char(fname, '.');
        if has_dot {
            assert(fname[dot - fstart] == '.');
            assert forall|k: int| dot - fstart < k < fname.len() implies fname[k] != '.' by {
                assert(fname[k] == chars@[fstart + k]);
            }
            assert(rfind_char(fname, '.') == dot - fstart);
        } else {
            assert forall|k: int| 0 <= k < fname.len() implies fname[k] != '.' by {
                assert(fname[k] == chars@[fstart + k]);
            }
            assert(rfind_char(fname, '.') == -1);
        }
    }
    if !has_dot || dot == fstart {
        return None;
    }
    let mut ext: Vec<char> = Vec::new();
    let mut k: usize = dot + 1;
    while k < n
        invariant
            n == chars@.len(),
            dot + 1 <= k <= n,
            ext@ =~= chars@.subrange(dot + 1, k as int),
        decreases n - k,
    {
        ext.push(chars[k]);
        k = k + 1;
    }
    proof {
        assert(ext@ =~= fname.subrange(rfind_char(fname, '.') + 1, fname.len() as int));
    }
    let lowered = ascii_lower_chars(&ext);
    Some(string_from_chars(&lowered))
}

/// The video file extensions accepted for import.
pub open spec fn valid_video_extension(e: Seq<char>) -> bool {
    ||| e == "mp4"@
    ||| e == "mov"@
    ||| e == "avi"@
    ||| e == "mkv"@
    ||| e == "webm"@
    ||| e == "flv"@
    ||| e == "wmv"@
}

/// Is `ext` (already lowercased) an accepted video extension?
pub fn is_video_extension(ext: &str) -> (r: bool)
    ensures
        r == valid_video_extension(ext@),
{
    str_eq(ext, "mp4") || str_eq(ext, "mov") || str_eq(ext, "avi") || str_eq(ext, "mkv") || str_eq(
        ext,
        "webm",
    ) || str_eq(ext, "flv") || str_eq(ext, "wmv")
}

/// The quality tags attributed to a video of the given pixel height.
pub fn quality_tags_for_height(height: i64) -> (r: Vec<String>)
    ensures
        height >= 2160 ==> r@.len() == 2 && r@[0]@ == "4K"@ && r@[1]@ == "UHD"@,
        1080 <= height < 2160 ==> r@.len() == 2 && r@[0]@ == "FullHD"@ && r@[1]@ == "1080p"@,
        720 <= height < 1080 ==> r@.len() == 2 && r@[0]@ == "HD"@ && r@[1]@ == "720p"@,
        height < 720 ==> r@.len() == 1 && r@[0]@ == "SD"@,
{
    let mut tags: Vec<String> = Vec::new();
    if height >= 2160 {
        tags.push("4K".to_owned());
        tags.push("UHD".to_owned());
    } else if height >= 1080 {
        tags.push("FullHD".to_owned());
        tags.push("1080p".to_owned());
    } else if height >= 720 {
        tags.push("HD".to_owned());
        tags.push("720p".to_owned());
    } else {
        tags.push("SD".to_owned());
    }
    tags
}

/// The format shown for an imported file: the piece of its name after the
/// last dot (the whole name when it has none), folded to small letters.
pub fn format_from_filename(filename: &str) -> (r: String)
    ensures
        rfind_char(filename@, '.') < 0 ==> r@ == ascii_lower_of(filename@),
        rfind_char(filename@, '.') >= 0 ==> r@ == ascii_lower_of(
            filename@.subrange(rfind_char(filename@, '.') + 1, filename@.len() as int),
        ),
{
    let chars = chars_of(filename);
    let n = chars.len();
    let mut dot: usize = 0;
    let mut has_dot = false;
    let mut i: usize = 0;
    while i < n
        invariant
            n == chars@.len(),
            i <= n,
            has_dot ==> dot < i && chars@[dot as int] == '.',
            has_dot ==> forall|k: int| dot < k < i ==> chars@[k] != '.',
            !has_dot ==> forall|k: int| 0 <= k < i ==> chars@[k] != '.',
        decreases n - i,
    {
        if chars[i] == '.' {
            dot = i;
            has_dot = true;
        }
        i = i + 1;
    }
    proof {
        lemma_rfind_char(chars@, '.');
        if has_dot {
            assert(rfind_char(chars@, '.') == dot);
        } else {
            assert(rfind_char(chars@, '.') == -1);
        }
    }
    let start: usize = if has_dot {
        dot + 1
    } else {
        0
    };
    let mut piece: Vec<char> = Vec::new();
    let mut k: usize = start;
    while k < n
        invariant
            n == chars@.len(),
            start <= k <= n,
            piece@ =~= chars@.subrange(start as int, k as int),
        decreases n - k,
    {
        piece.push(chars[k]);
        k = k + 1;
    }
    proof {
        if has_dot {
            assert(piece@ =~= filename@.subrange(rfind_char(filename@, '.') + 1,
            filename@.len() as int));
        } else {
            assert(piece@ =~= filename@);
        }
    }
    let lowered = ascii_lower_chars(&piece);
    string_from_chars(&lowered)
}

/// The organization label of an imported file: its format in capitals over
/// the date bucket the host derived from its metadata.
pub fn folder_label(ext: &str, date_label: &str) -> (r: String)
    ensures
        r@ == ascii_upper_of(ext@) + seq!['/'] + date_label@,
{
    let echars = chars_of(ext);
    let upper = ascii_upper_chars(&echars);
    let mut out = string_from_chars(&upper);
    out.append("/");
    out.append(date_label);
    proof {
        reveal_strlit("/");
        assert(seq!['/'] =~= "/"@);
    }
    out
}

} // verus!
