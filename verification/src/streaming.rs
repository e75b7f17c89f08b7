//! Range-request parsing and the data model of the media streaming surface.
//! The HTTP server itself is outside the library; it hands the raw header
//! value in and gets the byte range back.

use vstd::prelude::*;
use crate::errors::ArchivistError;
use crate::text::{all_digits, digits_val, starts_with, count_char};
use crate::ext::str_chars;

verus! {

/// Configuration for the media streaming server.
#[derive(Debug, Clone)]
pub struct MediaStreamingConfig {
    pub port: u16,
}

impl Default for MediaStreamingConfig {
    /// The default streaming port.
    fn default() -> (r: Self)
        ensures
            r.port == 8087,
    {
        MediaStreamingConfig { port: 8087 }
    }
}

/// A media item available for streaming.
#[derive(Debug, Clone)]
pub struct MediaLibraryItem {
    pub id: String,
    pub title: String,
    pub thumbnail: Option<String>,
    pub output_path: String,
    pub file_size: u64,
    pub mime_type: String,
    pub completed_at: Option<String>,
    pub audio_only: bool,
}

/// The library listing served to streaming clients.
#[derive(Debug, Clone)]
pub struct LibraryResponse {
    pub items: Vec<MediaLibraryItem>,
    pub total_count: usize,
}

/// A digit run that parses as a `u64`.
pub open spec fn valid_u64_digits(s: Seq<char>) -> bool {
    s.len() > 0 && all_digits(s) && digits_val(s) <= u64::MAX
}

/// What a Range header value like `bytes=0-1023`, `bytes=500-` or
/// `bytes=-500` denotes against a file of `file_size` bytes: the inclusive
/// start and end offsets, or nothing when the header is malformed.
pub open spec fn range_denotation(s: Seq<char>, file_size: u64) -> Option<(u64, u64)>
    recommends
        file_size > 0,
{
    if !starts_with(s, "bytes="@) {
        None
    } else {
        let r = s.subrange("bytes="@.len() as int, s.len() as int);
        if r.len() > 0 && r[0] == '-' {
            let d = r.subrange(1, r.len() as int);
            if valid_u64_digits(d) {
                let n = digits_val(d);
                let start = if n >= file_size { 0 } else { (file_size - n) as u64 };
                Some((start, (file_size - 1) as u64))
            } else {
                None
            }
        } else if r.len() > 0 && r.last() == '-' {
            let d = r.subrange(0, r.len() - 1);
            if valid_u64_digits(d) {
                Some((digits_val(d) as u64, (file_size - 1) as u64))
            } else {
                None
            }
        } else if count_char(r, '-') == 1 {
            let i = choose|i: int| 0 <= i < r.len() && r[i] == '-';
            let a = r.subrange(0, i);
            let b = r.subrange(i + 1, r.len() as int);
            if valid_u64_digits(a) && valid_u64_digits(b) {
                let start = digits_val(a) as u64;
                let end = digits_val(b) as u64;
                let end = if end <= file_size - 1 { end } else { (file_size - 1) as u64 };
                Some((start, end))
            } else {
                None
            }
        } else {
            None
        }
    }
}

/// Parses an HTTP Range header value such as `bytes=0-1023`, `bytes=500-`
/// or `bytes=-500` against a file of `file_size` bytes.
pub fn parse_range(range: &str, file_size: u64) -> (r: Result<(u64, u64), ArchivistError>)
    requires
        file_size > 0,
    ensures
        match r {
            Ok(pair) => range_denotation(range@, file_size) == Some(pair),
            Err(e) => range_denotation(range@, file_size) is None && e is StreamingError,
        },
{
    let v = str_chars(range);
    proof {
        reveal_strlit("bytes=");
    }
    let prefix_ok = if v.len() >= 6 {
        v[0] == 'b' && v[1] == 'y' && v[2] == 't' && v[3] == 'e' && v[4] == 's' && v[5] == '='
    } else {
        false
    };
    if !prefix_ok {
        proof {
            if starts_with(range@, "bytes="@) {
                assert(range@.subrange(0, 6)[0] == range@[0]);
                assert(range@.subrange(0, 6)[1] == range@[1]);
                assert(range@.subrange(0, 6)[2] == range@[2]);
                assert(range@.subrange(0, 6)[3] == range@[3]);
                assert(range@.subrange(0, 6)[4] == range@[4]);
                assert(range@.subrange(0, 6)[5] == range@[5]);
            }
        }
        return Err(ArchivistError::StreamingError(invalid_format_message()));
    }
    assert(v@.subrange(0, 6) =~= "bytes="@);
    let ghost rr = range@.subrange(6, range@.len() as int);
    let n = v.len();
    if n == 6 {
        // Empty range expression: no '-' at all.
        assert(rr =~= Seq::<char>::empty());
        return Err(ArchivistError::StreamingError(invalid_format_message()));
    }
    if v[6] == '-' {
        // Suffix form: the last N bytes of the file.
        assert(rr[0] == '-');
        let ghost d = rr.subrange(1, rr.len() as int);
        match crate::text::parse_u64_digits(&v, 7, n) {
            Some(num) => {
                proof {
                    assert(d =~= v@.subrange(7, n as int));
                }
                let start = if num >= file_size { 0 } else { file_size - num };
                Ok((start, file_size - 1))
            }
            None => {
                proof {
                    assert(d =~= v@.subrange(7, n as int));
                }
                Err(ArchivistError::StreamingError(invalid_value_message()))
            }
        }
    } else if v[n - 1] == '-' {
        // Open-ended form: from a start offset to the end of the file.
        assert(rr.last() == '-');
        let ghost d = rr.subrange(0, rr.len() - 1);
        match crate::text::parse_u64_digits(&v, 6, n - 1) {
            Some(start) => {
                proof {
                    assert(d =~= v@.subrange(6, n - 1));
                }
                Ok((start, file_size - 1))
            }
            None => {
                proof {
                    assert(d =~= v@.subrange(6, n - 1));
                }
                Err(ArchivistError::StreamingError(invalid_value_message()))
            }
        }
    } else {
        // Explicit form: start-end, with end clamped to the file size.
        match crate::text::find_char(&v, '-', 6) {
            None => {
                proof {
                    assert forall|j: int| 0 <= j < rr.len() implies rr[j] != '-' by {
                        assert(rr[j] == range@[6 + j]);
                    }
                    lemma_count_char_zero(rr, '-');
                }
                Err(ArchivistError::StreamingError(invalid_format_message()))
            }
            Some(i) => {
                let ghost ri = i - 6;
                assert(rr[ri] == '-');
                if let Some(j) = crate::text::find_char(&v, '-', i + 1) {
                    // More than one separator.
                    proof {
                        lemma_count_char_two(rr, '-', ri, j - 6);
                    }
                    return Err(ArchivistError::StreamingError(invalid_format_message()));
                }
                proof {
                    assert forall|k: int| 0 <= k < rr.len() && k != ri implies rr[k] != '-' by {
                        assert(rr[k] == range@[6 + k]);
                    }
                    lemma_count_char_one(rr, '-', ri);
                    assert(count_char(rr, '-') == 1);
                    let ci = choose|ci: int| 0 <= ci < rr.len() && rr[ci] == '-';
                    lemma_count_char_unique(rr, '-', ri, ci);
                }
                let a = crate::text::parse_u64_digits(&v, 6, i);
                let b = crate::text::parse_u64_digits(&v, i + 1, n);
                proof {
                    assert(rr.subrange(0, ri) =~= v@.subrange(6, i as int));
                    assert(rr.subrange(ri + 1, rr.len() as int) =~= v@.subrange(i + 1, n as int));
                }
                match (a, b) {
                    (Some(start), Some(end)) => {
                        let end = if end <= file_size - 1 { end } else { file_size - 1 };
                        Ok((start, end))
                    }
                    _ => Err(ArchivistError::StreamingError(invalid_value_message())),
                }
            }
        }
    }
}

fn invalid_format_message() -> (r: String)
    ensures
        r@ == "Invalid range format"@,
{
    String::from_str("Invalid range format")
}

fn invalid_value_message() -> (r: String)
    ensures
        r@ == "Invalid range value"@,
{
    String::from_str("Invalid range value")
}

proof fn lemma_count_char_zero(s: Seq<char>, c: char)
    requires
        forall|j: int| 0 <= j < s.len() ==> s[j] != c,
    ensures
        count_char(s, c) == 0,
    decreases s.len(),
{
    if s.len() > 0 {
        lemma_count_char_zero(s.drop_last(), c);
    }
}

proof fn lemma_count_char_one(s: Seq<char>, c: char, i: int)
    requires
        0 <= i < s.len(),
        s[i] == c,
        forall|j: int| 0 <= j < s.len() && j != i ==> s[j] != c,
    ensures
        count_char(s, c) == 1,
    decreases s.len(),
{
    if i == s.len() - 1 {
        lemma_count_char_zero(s.drop_last(), c);
    } else {
        lemma_count_char_one(s.drop_last(), c, i);
    }
}

proof fn lemma_count_char_two(s: Seq<char>, c: char, i: int, j: int)
    requires
        0 <= i < j < s.len(),
        s[i] == c,
        s[j] == c,
    ensures
        count_char(s, c) >= 2,
    decreases s.len(),
{
    if j == s.len() - 1 {
        lemma_count_char_at_least_one(s.drop_last(), c, i);
    } else {
        lemma_count_char_two(s.drop_last(), c, i, j);
    }
}

proof fn lemma_count_char_at_least_one(s: Seq<char>, c: char, i: int)
    requires
        0 <= i < s.len(),
        s[i] == c,
    ensures
        count_char(s, c) >= 1,
    decreases s.len(),
{
    if i < s.len() - 1 {
        lemma_count_char_at_least_one(s.drop_last(), c, i);
    }
}

proof fn lemma_count_char_unique(s: Seq<char>, c: char, i: int, j: int)
    requires
        0 <= i < s.len(),
        0 <= j < s.len(),
        s[i] == c,
        s[j] == c,
        count_char(s, c) == 1,
    ensures
        i == j,
{
    if i != j {
        if i < j {
            lemma_count_char_two(s, c, i, j);
        } else {
            lemma_count_char_two(s, c, j, i);
        }
    }
}

} // verus!
