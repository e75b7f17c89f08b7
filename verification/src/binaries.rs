//! Locations of the external media binaries the desktop shell can manage.
//! Downloading and extracting them is outside work; the library only
//! derives their paths and fixed download locations.

use vstd::prelude::*;
use crate::text::ends_with;

verus! {

/// Presence and versions of the managed external binaries.
#[derive(Debug)]
pub struct BinaryStatus {
    pub yt_dlp_installed: bool,
    pub yt_dlp_version: Option<String>,
    pub yt_dlp_path: Option<String>,
    pub ffmpeg_installed: bool,
    pub ffmpeg_version: Option<String>,
    pub ffmpeg_path: Option<String>,
}

/// Locates the managed external binaries under one directory.
#[derive(Debug)]
pub struct BinaryManager {
    bin_dir: String,
}

impl BinaryManager {
    /// The directory the managed binaries live in.
    pub closed spec fn dir(self) -> Seq<char> {
        self.bin_dir@
    }

    /// The manager rooted in the platform's data directory, under the
    /// application's own subdirectory.
    pub fn new() -> (r: Self)
        ensures
            ends_with(r.dir(), "archivist/bin"@),
    {
        let bin_dir = match crate::ext::data_dir_string() {
            Some(mut base) => {
                base.append("/archivist/bin");
                proof {
                    reveal_strlit("/archivist/bin");
                    reveal_strlit("archivist/bin");
                    assert(base@.subrange(
                        base@.len() - 13,
                        base@.len() as int,
                    ) =~= "archivist/bin"@);
                }
                base
            }
            None => {
                let d = String::from_str(".archivist/bin");
                proof {
                    reveal_strlit(".archivist/bin");
                    reveal_strlit("archivist/bin");
                    assert(d@.subrange(d@.len() - 13, d@.len() as int) =~= "archivist/bin"@);
                }
                d
            }
        };
        BinaryManager { bin_dir }
    }

    /// A manager rooted in the given directory.
    pub fn with_bin_dir(bin_dir: String) -> (r: Self)
        ensures
            r.dir() == bin_dir@,
    {
        BinaryManager { bin_dir }
    }

    /// The directory the manager was rooted in.
    pub fn bin_dir(&self) -> (r: &String)
        ensures
            r@ == self.dir(),
    {
        &self.bin_dir
    }

    /// Where the downloader binary lives.
    pub fn yt_dlp_path(&self) -> (r: String)
        ensures
            r@ == self.dir() + "/yt-dlp"@,
    {
        let mut out = self.bin_dir.clone();
        out.append("/yt-dlp");
        out
    }

    /// Where the transcoder binary lives.
    pub fn ffmpeg_path(&self) -> (r: String)
        ensures
            r@ == self.dir() + "/ffmpeg"@,
    {
        let mut out = self.bin_dir.clone();
        out.append("/ffmpeg");
        out
    }

    /// Whether the downloader binary is present on disk.
    pub fn is_yt_dlp_installed(&self) -> bool {
        let p = self.yt_dlp_path();
        crate::ext::path_exists(&p)
    }

    /// Whether the transcoder binary is present on disk.
    pub fn is_ffmpeg_installed(&self) -> bool {
        let p = self.ffmpeg_path();
        crate::ext::path_exists(&p)
    }

    /// The fixed location the downloader binary is fetched from.
    pub fn yt_dlp_download_url() -> (r: String)
        ensures
            r@ == "https://github.com/yt-dlp/yt-dlp/releases/latest/download/yt-dlp"@,
    {
        String::from_str("https://github.com/yt-dlp/yt-dlp/releases/latest/download/yt-dlp")
    }

    /// The fixed location the transcoder archive is fetched from, and the
    /// archive kind.
    pub fn ffmpeg_download_url() -> (r: (String, &'static str))
        ensures
            r.0@
                == "https://github.com/yt-dlp/FFmpeg-Builds/releases/download/latest/ffmpeg-master-latest-linux64-gpl.tar.xz"@,
            r.1@ == "tar.xz"@,
    {
        (
            String::from_str(
                "https://github.com/yt-dlp/FFmpeg-Builds/releases/download/latest/ffmpeg-master-latest-linux64-gpl.tar.xz",
            ),
            "tar.xz",
        )
    }
}

} // verus!
