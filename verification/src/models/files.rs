//! Files as the browser lists them, and their classification.

use crate::utils::paths::{extension_in, lemma_extension_in_path, portable};
use crate::utils::text::str_eq;
use vstd::prelude::*;

verus! {

/// The kinds of entries that the browser tells apart.
#[derive(Debug, Clone, Copy, PartialEq, Eq, Structural)]
pub enum FileType {
    Folder,
    Image,
    Video,
    Other,
}

/// One entry of a directory listing.
#[derive(Debug)]
pub struct FileInfo {
    pub name: String,
    pub size: u64,
    pub file_type: FileType,
    pub is_directory: bool,
    pub last_modified: u64,
    pub path: String,
}

/// Whether a lower-case extension is one of the image extensions.
pub open spec fn is_image_extension(ext: Seq<char>) -> bool {
    ext == "png"@ || ext == "jpg"@ || ext == "jpeg"@ || ext == "gif"@ || ext == "bmp"@ || ext
        == "svg"@
}

/// Whether a lower-case extension is one of the video extensions.
pub open spec fn is_video_extension(ext: Seq<char>) -> bool {
    ext == "mp4"@ || ext == "mkv"@ || ext == "avi"@ || ext == "mov"@ || ext == "wmv"@ || ext
        == "flv"@ || ext == "3gp"@
}

/// The type that a lower-case extension stands for.
pub open spec fn extension_type(ext: Seq<char>) -> FileType {
    if is_image_extension(ext) {
        FileType::Image
    } else if is_video_extension(ext) {
        FileType::Video
    } else {
        FileType::Other
    }
}

/// The lower-case form of a text, as `str::to_lowercase` gives it.
pub uninterp spec fn lowercase_of(s: Seq<char>) -> Seq<char>;

/// The type of an entry: a directory is a folder, whatever its name; a file
/// goes by its extension, letter case ignored; a file without one is `Other`.
pub open spec fn classified(is_dir: bool, extension: Option<Seq<char>>) -> FileType {
    if is_dir {
        FileType::Folder
    } else {
        match extension {
            Some(ext) => extension_type(lowercase_of(ext)),
            None => FileType::Other,
        }
    }
}

/// `str::to_lowercase`: the result is named [`lowercase_of`], nothing more is
/// claimed of it.
#[verifier::external_body]
fn lowercase(s: &str) -> (lower: String)
    ensures
        lower@ == lowercase_of(s@),
{
    s.to_lowercase()
}

/// Whether `extension` stands in `path` right behind a dot.
pub open spec fn follows_dot(path: Seq<char>, extension: Seq<char>) -> bool {
    exists|dot: int|
        0 <= dot && dot + 1 + extension.len() <= path.len() && #[trigger] path[dot] == '.'
            && path.subrange(dot + 1, dot + 1 + extension.len()) == extension
}

/// Whether `extension` can be the file extension of `path`: an extension
/// stands in the path right behind a dot, and holds no dot itself. Which of
/// the dots of a path begins its extension, if any does, is up to the path
/// syntax of the host.
pub open spec fn extension_fits(path: Seq<char>, extension: Option<Seq<char>>) -> bool {
    match extension {
        Some(ext) => follows_dot(path, ext) && !ext.contains('.'),
        None => true,
    }
}

/// `std::path::Path::extension`, for extensions that are valid text: the part
/// of the file name behind its last dot. It is a piece of the path, stands
/// behind a dot and holds none. For a path that every host reads alike it is
/// [`extension_in`]; for any other, where the file name begins follows the
/// host's path syntax, and no more is claimed.
#[verifier::external_body]
pub(crate) fn path_extension(path: &str) -> (extension: Option<String>)
    ensures
        extension_fits(path@, extension.deep_view()),
        portable(path@) ==> extension.deep_view() == extension_in(path@),
{
    std::path::Path::new(path).extension().and_then(|ext| ext.to_str()).map(|ext| ext.to_owned())
}

impl FileType {
    /// The name of a type.
    pub open spec fn label(self) -> Seq<char> {
        match self {
            FileType::Folder => "Folder"@,
            FileType::Image => "Image"@,
            FileType::Video => "Video"@,
            FileType::Other => "Other"@,
        }
    }

    /// The type that a name stands for; an unknown name stands for `Other`.
    pub open spec fn of_label(label: Seq<char>) -> FileType {
        if label == "Folder"@ {
            FileType::Folder
        } else if label == "Image"@ {
            FileType::Image
        } else if label == "Video"@ {
            FileType::Video
        } else {
            FileType::Other
        }
    }

    /// The name of the type: [`FileType::label`].
    pub fn to_string(&self) -> (name: String)
        ensures
            name@ == self.label(),
    {
        match self {
            FileType::Folder => "Folder".to_owned(),
            FileType::Image => "Image".to_owned(),
            FileType::Video => "Video".to_owned(),
            FileType::Other => "Other".to_owned(),
        }
    }

    /// Reads a type back from its name: [`FileType::of_label`].
    pub fn from_label(label: &str) -> (file_type: FileType)
        ensures
            file_type == FileType::of_label(label@),
    {
        if str_eq(label, "Folder") {
            FileType::Folder
        } else if str_eq(label, "Image") {
            FileType::Image
        } else if str_eq(label, "Video") {
            FileType::Video
        } else {
            FileType::Other
        }
    }

    /// The type for an extension that is in lower case already:
    /// [`extension_type`].
    pub fn for_extension(ext: &str) -> (file_type: FileType)
        ensures
            file_type == extension_type(ext@),
    {
        if str_eq(ext, "png") || str_eq(ext, "jpg") || str_eq(ext, "jpeg") || str_eq(ext, "gif")
            || str_eq(ext, "bmp") || str_eq(ext, "svg") {
            FileType::Image
        } else if str_eq(ext, "mp4") || str_eq(ext, "mkv") || str_eq(ext, "avi") || str_eq(
            ext,
            "mov",
        ) || str_eq(ext, "wmv") || str_eq(ext, "flv") || str_eq(ext, "3gp") {
            FileType::Video
        } else {
            FileType::Other
        }
    }

    /// Classifies an entry from what is known of it: [`classified`].
    pub fn classify(is_dir: bool, extension: Option<&str>) -> (file_type: FileType)
        ensures
            file_type == classified(is_dir, extension.deep_view()),
    {
        if is_dir {
            return FileType::Folder;
        }
        match extension {
            Some(ext) => {
                let lower = lowercase(ext);
                FileType::for_extension(lower.as_str())
            },
            None => FileType::Other,
        }
    }
}

/// The name of a type stands for that type.
pub proof fn lemma_label_reads_back(file_type: FileType)
    ensures
        FileType::of_label(file_type.label()) == file_type,
{
    reveal_strlit("Folder");
    reveal_strlit("Image");
    reveal_strlit("Video");
    reveal_strlit("Other");
    assert("Folder"@.len() == 6 && "Image"@.len() == 5 && "Video"@.len() == 5 && "Other"@.len() == 5);
    assert("Image"@[0] == 'I' && "Video"@[0] == 'V' && "Other"@[0] == 'O');
}

/// Things that have a file type.
pub trait ToFileType {
    fn to_file_type(&self) -> FileType;
}

/// A path together with what the file system says of it.
#[derive(Debug)]
pub struct PathProbe {
    pub path: String,
    /// Whether something exists at the path.
    pub exists: bool,
    /// Whether the path names a directory.
    pub is_dir: bool,
}

impl PathProbe {
    /// Whether `file_type` can be the type of the entry. A directory is a
    /// folder. A file has the type of an extension that fits its path; a
    /// path without a dot has none, so that such a file is `Other`.
    pub open spec fn may_have_type(self, file_type: FileType) -> bool {
        if self.is_dir {
            file_type == FileType::Folder
        } else {
            exists|extension: Option<Seq<char>>|
                extension_fits(self.path@, extension) && file_type == #[trigger] classified(
                    false,
                    extension,
                )
        }
    }

    /// The type of an entry whose path every host reads alike: a directory is
    /// a folder, a file goes by the extension of its path.
    pub open spec fn type_in(self) -> FileType {
        classified(self.is_dir, extension_in(self.path@))
    }

    /// The type of the entry. A directory is a folder; a file is classified by
    /// the extension of its path: [`PathProbe::type_in`] where every host
    /// reads the path alike, else by an extension that fits the path.
    pub fn file_type(&self) -> (file_type: FileType)
        ensures
            portable(self.path@) ==> file_type == self.type_in(),
            self.may_have_type(file_type),
    {
        if self.is_dir {
            return FileType::Folder;
        }
        let extension = path_extension(self.path.as_str());
        match extension {
            Some(ext) => {
                let file_type = FileType::classify(false, Some(ext.as_str()));
                assert(extension_fits(self.path@, Some(ext@)));
                assert(file_type == classified(false, Some(ext@)));
                file_type
            },
            None => {
                assert(extension_fits(self.path@, None));
                assert(FileType::Other == classified(false, None));
                FileType::Other
            },
        }
    }
}

/// What is claimed of the extension of a path that every host reads alike
/// agrees with what is claimed of every path: the extension fits the path.
pub proof fn lemma_extension_in_fits(path: Seq<char>)
    ensures
        extension_fits(path, extension_in(path)),
{
    lemma_extension_in_path(path);
}

/// A file whose path holds no dot has no extension: it is neither picture
/// nor video.
pub proof fn lemma_no_dot_no_type(probe: PathProbe, file_type: FileType)
    requires
        !probe.is_dir,
        !probe.path@.contains('.'),
        probe.may_have_type(file_type),
    ensures
        file_type == FileType::Other,
{
    let extension = choose|extension: Option<Seq<char>>|
        extension_fits(probe.path@, extension) && file_type == #[trigger] classified(
            false,
            extension,
        );
    if extension is Some {
        let dot = choose|dot: int|
            0 <= dot && dot + 1 + extension->0.len() <= probe.path@.len()
                && #[trigger] probe.path@[dot] == '.' && probe.path@.subrange(
                dot + 1,
                dot + 1 + extension->0.len(),
            ) == extension->0;
        assert(probe.path@.contains(probe.path@[dot]));
    }
}

impl ToFileType for PathProbe {
    /// The type of the entry: [`PathProbe::file_type`].
    fn to_file_type(&self) -> (file_type: FileType)
        ensures
            portable(self.path@) ==> file_type == self.type_in(),
            self.may_have_type(file_type),
    {
        self.file_type()
    }
}

} // verus!
