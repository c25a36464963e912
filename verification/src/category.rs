//! The five kinds of file the organiser sorts into, and how a file's extension
//! decides its kind.
use crate::path::{extension, extension_chars};
use crate::text::{ascii_lowercase, chars_of, lowercased, same_chars};
use vstd::prelude::*;

verus! {

/// The kind of a file, which decides where and how it is stored.
#[derive(Clone, Copy, Debug, PartialEq, Eq, Structural, Hash)]
pub enum Category {
    Images,
    Videos,
    Audio,
    Documents,
    Other,
}

/// Extensions of images (lower case).
pub open spec fn image_extensions() -> Seq<Seq<char>> {
    seq!["jpg"@, "jpeg"@, "png"@, "bmp"@, "tif"@, "tiff"@, "gif"@, "webp"@]
}

/// Extensions of videos (lower case).
pub open spec fn video_extensions() -> Seq<Seq<char>> {
    seq!["mp4"@, "avi"@, "mpeg"@, "mpg"@, "wmv"@, "mov"@, "flv"@, "mkv"@, "webm"@]
}

/// Extensions of audio files (lower case).
pub open spec fn audio_extensions() -> Seq<Seq<char>> {
    seq!["mp3"@, "wav"@, "aac"@, "wma"@, "flac"@, "ogg"@, "m4a"@, "mid"@, "midi"@]
}

/// Extensions of documents (lower case).
pub open spec fn document_extensions() -> Seq<Seq<char>> {
    seq![
        "txt"@,
        "text"@,
        "rtf"@,
        "doc"@,
        "docx"@,
        "docm"@,
        "pdf"@,
        "odt"@,
        "xls"@,
        "xlsx"@,
        "csv"@,
        "ods"@,
        "ppt"@,
        "pptx"@,
        "odp"@,
        "html"@,
        "htm"@,
        "css"@,
        "js"@,
        "py"@,
    ]
}

/// The category of a file with extension `e`, compared without regard to ASCII case.
pub open spec fn category_of_extension(e: Seq<char>) -> Category {
    let l = ascii_lowercase(e);
    if image_extensions().contains(l) {
        Category::Images
    } else if video_extensions().contains(l) {
        Category::Videos
    } else if audio_extensions().contains(l) {
        Category::Audio
    } else if document_extensions().contains(l) {
        Category::Documents
    } else {
        Category::Other
    }
}

/// The category of the file at `p`: a path without an extension counts as one
/// with an empty extension.
pub open spec fn category_of_path(p: Seq<char>) -> Category {
    match extension(p) {
        Some(e) => category_of_extension(e),
        None => category_of_extension(Seq::empty()),
    }
}

impl Category {
    /// Name of the output folder of the category.
    pub open spec fn folder_name(self) -> Seq<char> {
        match self {
            Category::Images => "Images"@,
            Category::Videos => "Videos"@,
            Category::Audio => "Audio"@,
            Category::Documents => "Documents"@,
            Category::Other => "Other"@,
        }
    }

    /// Whether files of the category are stored in an archive.
    pub open spec fn is_archived(self) -> bool {
        self is Audio || self is Documents || self is Other
    }

    /// Name of the archive of an archived category.
    pub open spec fn archive_file_name(self) -> Seq<char> {
        match self {
            Category::Audio => "audio.7z"@,
            Category::Documents => "documents.7z"@,
            _ => "other.7z"@,
        }
    }

    /// Name of the output folder of the category.
    pub fn folder(self) -> (r: &'static str)
        ensures
            r@ == self.folder_name(),
    {
        match self {
            Category::Images => "Images",
            Category::Videos => "Videos",
            Category::Audio => "Audio",
            Category::Documents => "Documents",
            Category::Other => "Other",
        }
    }

    /// Name of the archive in which the category is stored; only audio,
    /// documents and other files are archived.
    pub fn archive_name(self) -> (r: &'static str)
        requires
            self.is_archived(),
        ensures
            r@ == self.archive_file_name(),
    {
        match self {
            Category::Audio => "audio.7z",
            Category::Documents => "documents.7z",
            _ => "other.7z",
        }
    }
}

/// Classification ignores ASCII case: an extension falls in the same category
/// as its lower-case form, so two extensions that differ only in ASCII case
/// fall in the same category.
pub proof fn law_category_ignores_case(e: Seq<char>, f: Seq<char>)
    requires
        ascii_lowercase(e) == ascii_lowercase(f),
    ensures
        category_of_extension(e) == category_of_extension(ascii_lowercase(e)),
        category_of_extension(e) == category_of_extension(f),
{
    assert(ascii_lowercase(ascii_lowercase(e)) =~= ascii_lowercase(e));
}

/// The image list, word by word.
proof fn lemma_image_list(l: Seq<char>)
    ensures
        image_extensions().contains(l) <==> (
        l == "jpg"@ ||
        l == "jpeg"@ ||
        l == "png"@ ||
        l == "bmp"@ ||
        l == "tif"@ ||
        l == "tiff"@ ||
        l == "gif"@ ||
        l == "webp"@),
{
    let s = image_extensions();
    assert(s[0] == "jpg"@);
    assert(s[1] == "jpeg"@);
    assert(s[2] == "png"@);
    assert(s[3] == "bmp"@);
    assert(s[4] == "tif"@);
    assert(s[5] == "tiff"@);
    assert(s[6] == "gif"@);
    assert(s[7] == "webp"@);
    if s.contains(l) {
        let i = choose|i: int| 0 <= i < s.len() && s[i] == l;
        assert(0 <= i < 8);
    }
}

/// The video list, word by word.
proof fn lemma_video_list(l: Seq<char>)
    ensures
        video_extensions().contains(l) <==> (
        l == "mp4"@ ||
        l == "avi"@ ||
        l == "mpeg"@ ||
        l == "mpg"@ ||
        l == "wmv"@ ||
        l == "mov"@ ||
        l == "flv"@ ||
        l == "mkv"@ ||
        l == "webm"@),
{
    let s = video_extensions();
    assert(s[0] == "mp4"@);
    assert(s[1] == "avi"@);
    assert(s[2] == "mpeg"@);
    assert(s[3] == "mpg"@);
    assert(s[4] == "wmv"@);
    assert(s[5] == "mov"@);
    assert(s[6] == "flv"@);
    assert(s[7] == "mkv"@);
    assert(s[8] == "webm"@);
    if s.contains(l) {
        let i = choose|i: int| 0 <= i < s.len() && s[i] == l;
        assert(0 <= i < 9);
    }
}

/// The audio list, word by word.
proof fn lemma_audio_list(l: Seq<char>)
    ensures
        audio_extensions().contains(l) <==> (
        l == "mp3"@ ||
        l == "wav"@ ||
        l == "aac"@ ||
        l == "wma"@ ||
        l == "flac"@ ||
        l == "ogg"@ ||
        l == "m4a"@ ||
        l == "mid"@ ||
        l == "midi"@),
{
    let s = audio_extensions();
    assert(s[0] == "mp3"@);
    assert(s[1] == "wav"@);
    assert(s[2] == "aac"@);
    assert(s[3] == "wma"@);
    assert(s[4] == "flac"@);
    assert(s[5] == "ogg"@);
    assert(s[6] == "m4a"@);
    assert(s[7] == "mid"@);
    assert(s[8] == "midi"@);
    if s.contains(l) {
        let i = choose|i: int| 0 <= i < s.len() && s[i] == l;
        assert(0 <= i < 9);
    }
}

/// The document list, word by word.
proof fn lemma_document_list(l: Seq<char>)
    ensures
        document_extensions().contains(l) <==> (
        l == "txt"@ ||
        l == "text"@ ||
        l == "rtf"@ ||
        l == "doc"@ ||
        l == "docx"@ ||
        l == "docm"@ ||
        l == "pdf"@ ||
        l == "odt"@ ||
        l == "xls"@ ||
        l == "xlsx"@ ||
        l == "csv"@ ||
        l == "ods"@ ||
        l == "ppt"@ ||
        l == "pptx"@ ||
        l == "odp"@ ||
        l == "html"@ ||
        l == "htm"@ ||
        l == "css"@ ||
        l == "js"@ ||
        l == "py"@),
{
    let s = document_extensions();
    assert(s[0] == "txt"@);
    assert(s[1] == "text"@);
    assert(s[2] == "rtf"@);
    assert(s[3] == "doc"@);
    assert(s[4] == "docx"@);
    assert(s[5] == "docm"@);
    assert(s[6] == "pdf"@);
    assert(s[7] == "odt"@);
    assert(s[8] == "xls"@);
    assert(s[9] == "xlsx"@);
    assert(s[10] == "csv"@);
    assert(s[11] == "ods"@);
    assert(s[12] == "ppt"@);
    assert(s[13] == "pptx"@);
    assert(s[14] == "odp"@);
    assert(s[15] == "html"@);
    assert(s[16] == "htm"@);
    assert(s[17] == "css"@);
    assert(s[18] == "js"@);
    assert(s[19] == "py"@);
    if s.contains(l) {
        let i = choose|i: int| 0 <= i < s.len() && s[i] == l;
        assert(0 <= i < 20);
    }
}

/// Files with the extension jpg, jpeg, png, bmp, tif, tiff, gif or webp, in any
/// ASCII case, are images.
pub proof fn law_image_extensions(e: Seq<char>)
    requires
        ascii_lowercase(e) == "jpg"@ ||
        ascii_lowercase(e) == "jpeg"@ ||
        ascii_lowercase(e) == "png"@ ||
        ascii_lowercase(e) == "bmp"@ ||
        ascii_lowercase(e) == "tif"@ ||
        ascii_lowercase(e) == "tiff"@ ||
        ascii_lowercase(e) == "gif"@ ||
        ascii_lowercase(e) == "webp"@,
    ensures
        category_of_extension(e) == Category::Images,
{
    let l = ascii_lowercase(e);
    lemma_image_list(l);
}

/// Files with the extension mp4, avi, mpeg, mpg, wmv, mov, flv, mkv or webm, in
/// any ASCII case, are videos.
pub proof fn law_video_extensions(e: Seq<char>)
    requires
        ascii_lowercase(e) == "mp4"@ ||
        ascii_lowercase(e) == "avi"@ ||
        ascii_lowercase(e) == "mpeg"@ ||
        ascii_lowercase(e) == "mpg"@ ||
        ascii_lowercase(e) == "wmv"@ ||
        ascii_lowercase(e) == "mov"@ ||
        ascii_lowercase(e) == "flv"@ ||
        ascii_lowercase(e) == "mkv"@ ||
        ascii_lowercase(e) == "webm"@,
    ensures
        category_of_extension(e) == Category::Videos,
{
    let l = ascii_lowercase(e);
    lemma_image_list(l);
    lemma_video_list(l);
    reveal_strlit("mp4");
    reveal_strlit("avi");
    reveal_strlit("mpeg");
    reveal_strlit("mpg");
    reveal_strlit("wmv");
    reveal_strlit("mov");
    reveal_strlit("flv");
    reveal_strlit("mkv");
    reveal_strlit("webm");
    reveal_strlit("jpg");
    reveal_strlit("jpeg");
    reveal_strlit("png");
    reveal_strlit("bmp");
    reveal_strlit("tif");
    reveal_strlit("tiff");
    reveal_strlit("gif");
    reveal_strlit("webp");
    if l == "mp4"@ {
        assert(l.len() == 3 && l[0] == 'm' && l[1] == 'p' && l[2] == '4');
    }
    if l == "avi"@ {
        assert(l.len() == 3 && l[0] == 'a' && l[1] == 'v' && l[2] == 'i');
    }
    if l == "mpeg"@ {
        assert(l.len() == 4 && l[0] == 'm' && l[1] == 'p' && l[2] == 'e' && l[3] == 'g');
    }
    if l == "mpg"@ {
        assert(l.len() == 3 && l[0] == 'm' && l[1] == 'p' && l[2] == 'g');
    }
    if l == "wmv"@ {
        assert(l.len() == 3 && l[0] == 'w' && l[1] == 'm' && l[2] == 'v');
    }
    if l == "mov"@ {
        assert(l.len() == 3 && l[0] == 'm' && l[1] == 'o' && l[2] == 'v');
    }
    if l == "flv"@ {
        assert(l.len() == 3 && l[0] == 'f' && l[1] == 'l' && l[2] == 'v');
    }
    if l == "mkv"@ {
        assert(l.len() == 3 && l[0] == 'm' && l[1] == 'k' && l[2] == 'v');
    }
    if l == "webm"@ {
        assert(l.len() == 4 && l[0] == 'w' && l[1] == 'e' && l[2] == 'b' && l[3] == 'm');
    }
}

/// Files with the extension mp3, wav, aac, wma, flac, ogg, m4a, mid or midi, in
/// any ASCII case, are audio files.
pub proof fn law_audio_extensions(e: Seq<char>)
    requires
        ascii_lowercase(e) == "mp3"@ ||
        ascii_lowercase(e) == "wav"@ ||
        ascii_lowercase(e) == "aac"@ ||
        ascii_lowercase(e) == "wma"@ ||
        ascii_lowercase(e) == "flac"@ ||
        ascii_lowercase(e) == "ogg"@ ||
        ascii_lowercase(e) == "m4a"@ ||
        ascii_lowercase(e) == "mid"@ ||
        ascii_lowercase(e) == "midi"@,
    ensures
        category_of_extension(e) == Category::Audio,
{
    let l = ascii_lowercase(e);
    lemma_image_list(l);
    lemma_video_list(l);
    lemma_audio_list(l);
    reveal_strlit("mp3");
    reveal_strlit("wav");
    reveal_strlit("aac");
    reveal_strlit("wma");
    reveal_strlit("flac");
    reveal_strlit("ogg");
    reveal_strlit("m4a");
    reveal_strlit("mid");
    reveal_strlit("midi");
    reveal_strlit("jpg");
    reveal_strlit("jpeg");
    reveal_strlit("png");
    reveal_strlit("bmp");
    reveal_strlit("tif");
    reveal_strlit("tiff");
    reveal_strlit("gif");
    reveal_strlit("webp");
    reveal_strlit("mp4");
    reveal_strlit("avi");
    reveal_strlit("mpeg");
    reveal_strlit("mpg");
    reveal_strlit("wmv");
    reveal_strlit("mov");
    reveal_strlit("flv");
    reveal_strlit("mkv");
    reveal_strlit("webm");
    if l == "mp3"@ {
        assert(l.len() == 3 && l[0] == 'm' && l[1] == 'p' && l[2] == '3');
    }
    if l == "wav"@ {
        assert(l.len() == 3 && l[0] == 'w' && l[1] == 'a' && l[2] == 'v');
    }
    if l == "aac"@ {
        assert(l.len() == 3 && l[0] == 'a' && l[1] == 'a' && l[2] == 'c');
    }
    if l == "wma"@ {
        assert(l.len() == 3 && l[0] == 'w' && l[1] == 'm' && l[2] == 'a');
    }
    if l == "flac"@ {
        assert(l.len() == 4 && l[0] == 'f' && l[1] == 'l' && l[2] == 'a' && l[3] == 'c');
    }
    if l == "ogg"@ {
        assert(l.len() == 3 && l[0] == 'o' && l[1] == 'g' && l[2] == 'g');
    }
    if l == "m4a"@ {
        assert(l.len() == 3 && l[0] == 'm' && l[1] == '4' && l[2] == 'a');
    }
    if l == "mid"@ {
        assert(l.len() == 3 && l[0] == 'm' && l[1] == 'i' && l[2] == 'd');
    }
    if l == "midi"@ {
        assert(l.len() == 4 && l[0] == 'm' && l[1] == 'i' && l[2] == 'd' && l[3] == 'i');
    }
}

/// Files with the extension txt, text, rtf, doc, docx, docm, pdf, odt, xls, xlsx,
/// csv, ods, ppt, pptx, odp, html, htm, css, js or py, in any ASCII case, are
/// documents.
pub proof fn law_document_extensions(e: Seq<char>)
    requires
        ascii_lowercase(e) == "txt"@ ||
        ascii_lowercase(e) == "text"@ ||
        ascii_lowercase(e) == "rtf"@ ||
        ascii_lowercase(e) == "doc"@ ||
        ascii_lowercase(e) == "docx"@ ||
        ascii_lowercase(e) == "docm"@ ||
        ascii_lowercase(e) == "pdf"@ ||
        ascii_lowercase(e) == "odt"@ ||
        ascii_lowercase(e) == "xls"@ ||
        ascii_lowercase(e) == "xlsx"@ ||
        ascii_lowercase(e) == "csv"@ ||
        ascii_lowercase(e) == "ods"@ ||
        ascii_lowercase(e) == "ppt"@ ||
        ascii_lowercase(e) == "pptx"@ ||
        ascii_lowercase(e) == "odp"@ ||
        ascii_lowercase(e) == "html"@ ||
        ascii_lowercase(e) == "htm"@ ||
        ascii_lowercase(e) == "css"@ ||
        ascii_lowercase(e) == "js"@ ||
        ascii_lowercase(e) == "py"@,
    ensures
        category_of_extension(e) == Category::Documents,
{
    let l = ascii_lowercase(e);
    lemma_image_list(l);
    lemma_video_list(l);
    lemma_audio_list(l);
    lemma_document_list(l);
    reveal_strlit("txt");
    reveal_strlit("text");
    reveal_strlit("rtf");
    reveal_strlit("doc");
    reveal_strlit("docx");
    reveal_strlit("docm");
    reveal_strlit("pdf");
    reveal_strlit("odt");
    reveal_strlit("xls");
    reveal_strlit("xlsx");
    reveal_strlit("csv");
    reveal_strlit("ods");
    reveal_strlit("ppt");
    reveal_strlit("pptx");
    reveal_strlit("odp");
    reveal_strlit("html");
    reveal_strlit("htm");
    reveal_strlit("css");
    reveal_strlit("js");
    reveal_strlit("py");
    reveal_strlit("jpg");
    reveal_strlit("jpeg");
    reveal_strlit("png");
    reveal_strlit("bmp");
    reveal_strlit("tif");
    reveal_strlit("tiff");
    reveal_strlit("gif");
    reveal_strlit("webp");
    reveal_strlit("mp4");
    reveal_strlit("avi");
    reveal_strlit("mpeg");
    reveal_strlit("mpg");
    reveal_strlit("wmv");
    reveal_strlit("mov");
    reveal_strlit("flv");
    reveal_strlit("mkv");
    reveal_strlit("webm");
    reveal_strlit("mp3");
    reveal_strlit("wav");
    reveal_strlit("aac");
    reveal_strlit("wma");
    reveal_strlit("flac");
    reveal_strlit("ogg");
    reveal_strlit("m4a");
    reveal_strlit("mid");
    reveal_strlit("midi");
    if l == "txt"@ {
        assert(l.len() == 3 && l[0] == 't' && l[1] == 'x' && l[2] == 't');
    }
    if l == "text"@ {
        assert(l.len() == 4 && l[0] == 't' && l[1] == 'e' && l[2] == 'x' && l[3] == 't');
    }
    if l == "rtf"@ {
        assert(l.len() == 3 && l[0] == 'r' && l[1] == 't' && l[2] == 'f');
    }
    if l == "doc"@ {
        assert(l.len() == 3 && l[0] == 'd' && l[1] == 'o' && l[2] == 'c');
    }
    if l == "docx"@ {
        assert(l.len() == 4 && l[0] == 'd' && l[1] == 'o' && l[2] == 'c' && l[3] == 'x');
    }
    if l == "docm"@ {
        assert(l.len() == 4 && l[0] == 'd' && l[1] == 'o' && l[2] == 'c' && l[3] == 'm');
    }
    if l == "pdf"@ {
        assert(l.len() == 3 && l[0] == 'p' && l[1] == 'd' && l[2] == 'f');
    }
    if l == "odt"@ {
        assert(l.len() == 3 && l[0] == 'o' && l[1] == 'd' && l[2] == 't');
    }
    if l == "xls"@ {
        assert(l.len() == 3 && l[0] == 'x' && l[1] == 'l' && l[2] == 's');
    }
    if l == "xlsx"@ {
        assert(l.len() == 4 && l[0] == 'x' && l[1] == 'l' && l[2] == 's' && l[3] == 'x');
    }
    if l == "csv"@ {
        assert(l.len() == 3 && l[0] == 'c' && l[1] == 's' && l[2] == 'v');
    }
    if l == "ods"@ {
        assert(l.len() == 3 && l[0] == 'o' && l[1] == 'd' && l[2] == 's');
    }
    if l == "ppt"@ {
        assert(l.len() == 3 && l[0] == 'p' && l[1] == 'p' && l[2] == 't');
    }
    if l == "pptx"@ {
        assert(l.len() == 4 && l[0] == 'p' && l[1] == 'p' && l[2] == 't' && l[3] == 'x');
    }
    if l == "odp"@ {
        assert(l.len() == 3 && l[0] == 'o' && l[1] == 'd' && l[2] == 'p');
    }
    if l == "html"@ {
        assert(l.len() == 4 && l[0] == 'h' && l[1] == 't' && l[2] == 'm' && l[3] == 'l');
    }
    if l == "htm"@ {
        assert(l.len() == 3 && l[0] == 'h' && l[1] == 't' && l[2] == 'm');
    }
    if l == "css"@ {
        assert(l.len() == 3 && l[0] == 'c' && l[1] == 's' && l[2] == 's');
    }
    if l == "js"@ {
        assert(l.len() == 2 && l[0] == 'j' && l[1] == 's');
    }
    if l == "py"@ {
        assert(l.len() == 2 && l[0] == 'p' && l[1] == 'y');
    }
}

/// Files whose extension, in lower case, is on none of the lists above (the
/// empty extension among them) fall under other files.
pub proof fn law_unlisted_extensions(e: Seq<char>)
    requires
        ascii_lowercase(e) != "jpg"@,
        ascii_lowercase(e) != "jpeg"@,
        ascii_lowercase(e) != "png"@,
        ascii_lowercase(e) != "bmp"@,
        ascii_lowercase(e) != "tif"@,
        ascii_lowercase(e) != "tiff"@,
        ascii_lowercase(e) != "gif"@,
        ascii_lowercase(e) != "webp"@,
        ascii_lowercase(e) != "mp4"@,
        ascii_lowercase(e) != "avi"@,
        ascii_lowercase(e) != "mpeg"@,
        ascii_lowercase(e) != "mpg"@,
        ascii_lowercase(e) != "wmv"@,
        ascii_lowercase(e) != "mov"@,
        ascii_lowercase(e) != "flv"@,
        ascii_lowercase(e) != "mkv"@,
        ascii_lowercase(e) != "webm"@,
        ascii_lowercase(e) != "mp3"@,
        ascii_lowercase(e) != "wav"@,
        ascii_lowercase(e) != "aac"@,
        ascii_lowercase(e) != "wma"@,
        ascii_lowercase(e) != "flac"@,
        ascii_lowercase(e) != "ogg"@,
        ascii_lowercase(e) != "m4a"@,
        ascii_lowercase(e) != "mid"@,
        ascii_lowercase(e) != "midi"@,
        ascii_lowercase(e) != "txt"@,
        ascii_lowercase(e) != "text"@,
        ascii_lowercase(e) != "rtf"@,
        ascii_lowercase(e) != "doc"@,
        ascii_lowercase(e) != "docx"@,
        ascii_lowercase(e) != "docm"@,
        ascii_lowercase(e) != "pdf"@,
        ascii_lowercase(e) != "odt"@,
        ascii_lowercase(e) != "xls"@,
        ascii_lowercase(e) != "xlsx"@,
        ascii_lowercase(e) != "csv"@,
        ascii_lowercase(e) != "ods"@,
        ascii_lowercase(e) != "ppt"@,
        ascii_lowercase(e) != "pptx"@,
        ascii_lowercase(e) != "odp"@,
        ascii_lowercase(e) != "html"@,
        ascii_lowercase(e) != "htm"@,
        ascii_lowercase(e) != "css"@,
        ascii_lowercase(e) != "js"@,
        ascii_lowercase(e) != "py"@,
    ensures
        category_of_extension(e) == Category::Other,
{
    let l = ascii_lowercase(e);
    lemma_image_list(l);
    lemma_video_list(l);
    lemma_audio_list(l);
    lemma_document_list(l);
}

/// Whether `l` is one of the words in `list`.
fn listed(l: &[char], list: &[&str]) -> (r: bool)
    ensures
        r == list@.map_values(|s: &str| s@).contains(l@),
{
    let mut i: usize = 0;
    while i < list.len()
        invariant
            i <= list.len(),
            forall|k: int| 0 <= k < i ==> list@[k]@ != l@,
        decreases list.len() - i,
    {
        if same_chars(l, list[i]) {
            assert(list@.map_values(|s: &str| s@)[i as int] == l@);
            return true;
        }
        i = i + 1;
    }
    let ghost views = list@.map_values(|s: &str| s@);
    assert forall|k: int| 0 <= k < views.len() implies #[trigger] views[k] != l@ by {
        assert(views[k] == list@[k]@);
    }
    false
}

/// The category of a file with extension `e`.
fn category_of_chars(e: &[char]) -> (r: Category)
    ensures
        r == category_of_extension(e@),
{
    let l = lowercased(e);
    let images: [&str; 8] = ["jpg", "jpeg", "png", "bmp", "tif", "tiff", "gif", "webp"];
    assert(images@.map_values(|s: &str| s@) =~= image_extensions());
    if listed(&l, &images) {
        return Category::Images;
    }
    let videos: [&str; 9] = ["mp4", "avi", "mpeg", "mpg", "wmv", "mov", "flv", "mkv", "webm"];
    assert(videos@.map_values(|s: &str| s@) =~= video_extensions());
    if listed(&l, &videos) {
        return Category::Videos;
    }
    let audio: [&str; 9] = ["mp3", "wav", "aac", "wma", "flac", "ogg", "m4a", "mid", "midi"];
    assert(audio@.map_values(|s: &str| s@) =~= audio_extensions());
    if listed(&l, &audio) {
        return Category::Audio;
    }
    let documents: [&str; 20] = [
        "txt",
        "text",
        "rtf",
        "doc",
        "docx",
        "docm",
        "pdf",
        "odt",
        "xls",
        "xlsx",
        "csv",
        "ods",
        "ppt",
        "pptx",
        "odp",
        "html",
        "htm",
        "css",
        "js",
        "py",
    ];
    assert(documents@.map_values(|s: &str| s@) =~= document_extensions());
    if listed(&l, &documents) {
        return Category::Documents;
    }
    Category::Other
}

/// The category of the file at `path`, decided by its extension without regard
/// to ASCII case.
pub fn category_for(path: &str) -> (r: Category)
    ensures
        r == category_of_path(path@),
{
    let p = chars_of(path);
    match extension_chars(&p) {
        Some(e) => category_of_chars(&e),
        None => {
            let empty: Vec<char> = Vec::new();
            assert(empty@ =~= Seq::<char>::empty());
            category_of_chars(&empty)
        },
    }
}

} // verus!
