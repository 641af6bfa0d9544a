//! The four extension filters, and the decision whether an entry of the
//! source tree is copied.

use vstd::prelude::*;
use vstd::string::StringExecFns;
use crate::text::{holds_text, join_texts, joined_with, lowercased, texts};

verus! {

/// The rule by which files are picked for copying.
#[derive(Clone, Copy, Debug, PartialEq, Eq, Structural)]
pub enum FilterCategory {
    /// Video files.
    Video,
    /// Subtitle files.
    Subtitles,
    /// Video and subtitle files.
    Both,
    /// Every file that has an extension.
    Any,
}

/// The extensions of video files.
pub open spec fn video_extensions() -> Seq<Seq<char>> {
    seq!["mp4"@, "mkv"@, "avi"@, "mov"@, "flv"@, "wmv"@, "webm"@]
}

/// The extensions of subtitle files.
pub open spec fn subtitle_extensions() -> Seq<Seq<char>> {
    seq!["srt"@, "ass"@, "vtt"@, "sub"@, "ssa"@]
}

/// The menu line of the video filter.
pub open spec fn video_label() -> Seq<char> {
    "Video     - ["@ + joined_with(video_extensions(), ", "@) + "]"@
}

/// The menu line of the subtitle filter.
pub open spec fn subtitles_label() -> Seq<char> {
    "Subtitles - ["@ + joined_with(subtitle_extensions(), ", "@) + "]"@
}

/// The menu line of the filter for both kinds.
pub open spec fn both_label() -> Seq<char> {
    "Both      - ["@ + joined_with(video_extensions(), ", "@) + ", "@ + joined_with(
        subtitle_extensions(),
        ", "@,
    ) + "]"@
}

/// The menu line of the filter that takes every extension.
pub open spec fn any_label() -> Seq<char> {
    "Any       - [*] (DEFAULT)"@
}

/// The extensions of video files, as the filters test them.
pub fn video_list() -> (list: Vec<&'static str>)
    ensures
        texts(list@) == video_extensions(),
{
    let list = vec!["mp4", "mkv", "avi", "mov", "flv", "wmv", "webm"];
    assert(texts(list@) =~= video_extensions());
    list
}

/// The extensions of subtitle files, as the filters test them.
pub fn subtitle_list() -> (list: Vec<&'static str>)
    ensures
        texts(list@) == subtitle_extensions(),
{
    let list = vec!["srt", "ass", "vtt", "sub", "ssa"];
    assert(texts(list@) =~= subtitle_extensions());
    list
}

impl FilterCategory {
    /// Whether the filter lets a file with the lower-case extension `ext`
    /// (without the dot) through.
    pub open spec fn allows(self, ext: Seq<char>) -> bool {
        match self {
            FilterCategory::Video => video_extensions().contains(ext),
            FilterCategory::Subtitles => subtitle_extensions().contains(ext),
            FilterCategory::Both => video_extensions().contains(ext)
                || subtitle_extensions().contains(ext),
            FilterCategory::Any => true,
        }
    }

    /// Whether an entry of the source tree is copied: it is a regular file,
    /// it has an extension, and the filter allows that extension in lower
    /// case. A file without an extension is never copied, under any filter.
    pub open spec fn selects(self, is_file: bool, extension: Option<Seq<char>>) -> bool {
        is_file && match extension {
            Some(ext) => self.allows(lowercased(ext)),
            None => false,
        }
    }

    /// The filter that stands behind number `choice` of the filter menu.
    /// Every number but 1, 2 and 3 means `Any`.
    pub open spec fn of_choice(choice: u32) -> FilterCategory {
        if choice == 1 {
            FilterCategory::Video
        } else if choice == 2 {
            FilterCategory::Subtitles
        } else if choice == 3 {
            FilterCategory::Both
        } else {
            FilterCategory::Any
        }
    }

    /// The line that offers the filter in the menu.
    pub open spec fn label_text(self) -> Seq<char> {
        match self {
            FilterCategory::Video => video_label(),
            FilterCategory::Subtitles => subtitles_label(),
            FilterCategory::Both => both_label(),
            FilterCategory::Any => any_label(),
        }
    }

    /// The filter chosen by number `choice` of the filter menu.
    pub fn from_choice(choice: u32) -> (filter: FilterCategory)
        ensures
            filter == FilterCategory::of_choice(choice),
    {
        if choice == 1 {
            FilterCategory::Video
        } else if choice == 2 {
            FilterCategory::Subtitles
        } else if choice == 3 {
            FilterCategory::Both
        } else {
            FilterCategory::Any
        }
    }

    /// Tests the lower-case extension `ext` against the filter.
    pub fn accepts(&self, ext: &str) -> (allowed: bool)
        ensures
            allowed == self.allows(ext@),
    {
        match self {
            FilterCategory::Video => holds_text(&video_list(), ext),
            FilterCategory::Subtitles => holds_text(&subtitle_list(), ext),
            FilterCategory::Both => holds_text(&video_list(), ext) || holds_text(
                &subtitle_list(),
                ext,
            ),
            FilterCategory::Any => true,
        }
    }

    /// Decides whether an entry of the source tree is copied. `is_file`
    /// says whether the entry is a regular file, `extension` is what
    /// follows the last dot of its name, if the name has an extension.
    pub fn should_copy(&self, is_file: bool, extension: Option<&str>) -> (copy: bool)
        ensures
            copy == self.selects(
                is_file,
                match extension {
                    Some(ext) => Some(ext@),
                    None => None,
                },
            ),
            extension is None ==> !copy,
            !is_file ==> !copy,
    {
        if !is_file {
            return false;
        }
        match extension {
            Some(ext) => {
                let lower = ext.to_ascii_lowercase();
                self.accepts(lower.as_str())
            },
            None => false,
        }
    }

    /// The line that offers the filter in the menu.
    pub fn label(&self) -> (line: String)
        ensures
            line@ == self.label_text(),
    {
        match self {
            FilterCategory::Video => {
                let mut line = String::from_str("Video     - [");
                line.append(join_texts(&video_list(), ", ").as_str());
                line.append("]");
                line
            },
            FilterCategory::Subtitles => {
                let mut line = String::from_str("Subtitles - [");
                line.append(join_texts(&subtitle_list(), ", ").as_str());
                line.append("]");
                line
            },
            FilterCategory::Both => {
                let mut line = String::from_str("Both      - [");
                line.append(join_texts(&video_list(), ", ").as_str());
                line.append(", ");
                line.append(join_texts(&subtitle_list(), ", ").as_str());
                line.append("]");
                line
            },
            FilterCategory::Any => String::from_str("Any       - [*] (DEFAULT)"),
        }
    }
}

/// What the filters leave out and let through, whatever the extension:
/// nothing that is no regular file and no file without an extension is
/// selected, under any filter; `Any` selects every file that has an
/// extension; `Both` allows what `Video` or `Subtitles` allows; and
/// extensions that differ only in the case of ASCII letters fare alike.
pub proof fn lemma_selection(
    filter: FilterCategory,
    is_file: bool,
    extension: Option<Seq<char>>,
    other: Seq<char>,
)
    ensures
        extension is None ==> !filter.selects(is_file, extension),
        !is_file ==> !filter.selects(is_file, extension),
        is_file && extension is Some ==> FilterCategory::Any.selects(is_file, extension),
        FilterCategory::Both.selects(is_file, extension) == (FilterCategory::Video.selects(
            is_file,
            extension,
        ) || FilterCategory::Subtitles.selects(is_file, extension)),
        extension is Some && lowercased(extension->0) == lowercased(other) ==> filter.selects(
            is_file,
            extension,
        ) == filter.selects(is_file, Some(other)),
{
}

/// The four lines of the filter menu, in the order of their numbers.
pub fn filter_options() -> (lines: Vec<String>)
    ensures
        lines@.len() == 4,
        lines@[0]@ == video_label(),
        lines@[1]@ == subtitles_label(),
        lines@[2]@ == both_label(),
        lines@[3]@ == any_label(),
{
    let mut lines: Vec<String> = Vec::new();
    lines.push(FilterCategory::Video.label());
    lines.push(FilterCategory::Subtitles.label());
    lines.push(FilterCategory::Both.label());
    lines.push(FilterCategory::Any.label());
    lines
}

} // verus!
