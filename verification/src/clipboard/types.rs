//! What a clipboard capture holds, and the rules that decide how it is recorded.
use vstd::prelude::*;
use crate::utils::text::str_eq;

verus! {

/// Clipboard content in one of its forms.
#[derive(Debug, Clone)]
pub enum ClipData {
    /// Plain text.
    Text(String),
    /// Image bytes (BMP, PNG, ...).
    Image(Vec<u8>),
    /// A file path (from a file drop, or text that names a file).
    File(String),
}

/// The kind of a record.
#[derive(Debug, Clone, Copy, PartialEq, Eq, Structural)]
pub enum ContentType {
    Text,
    Image,
    File,
}

/// The stored name of a content type.
pub open spec fn content_type_name(c: ContentType) -> Seq<char> {
    match c {
        ContentType::Text => "text"@,
        ContentType::Image => "image"@,
        ContentType::File => "file"@,
    }
}

/// The content type that a stored name stands for; unknown names read as text.
pub open spec fn content_type_of(s: Seq<char>) -> ContentType {
    if s == "image"@ {
        ContentType::Image
    } else if s == "file"@ {
        ContentType::File
    } else {
        ContentType::Text
    }
}

impl ContentType {
    /// The stored name: `"text"`, `"image"` or `"file"`.
    pub fn as_str(&self) -> (r: &'static str)
        ensures
            r@ == content_type_name(*self),
    {
        match self {
            ContentType::Text => "text",
            ContentType::Image => "image",
            ContentType::File => "file",
        }
    }

    /// The content type named by `s`; anything but `"image"` and `"file"` is text.
    pub fn from_str(s: &str) -> (r: Self)
        ensures
            r == content_type_of(s@),
    {
        if str_eq(s, "image") {
            ContentType::Image
        } else if str_eq(s, "file") {
            ContentType::File
        } else {
            ContentType::Text
        }
    }
}

/// Reading back the stored name of a content type gives that content type.
pub proof fn lemma_content_type_round_trip(c: ContentType)
    ensures
        content_type_of(content_type_name(c)) == c,
{
    reveal_strlit("text");
    reveal_strlit("image");
    reveal_strlit("file");
    assert("text"@.len() == 4 && "text"@[0] == 't');
    assert("file"@.len() == 4 && "file"@[0] == 'f');
    assert("image"@.len() == 5);
}

/// The formats found on the clipboard at one capture, side by side.
#[derive(Debug, Clone)]
pub struct RawClipContent {
    /// Unicode text.
    pub text: Option<String>,
    /// Device-independent bitmap bytes.
    pub image: Option<Vec<u8>>,
    /// Paths of dropped files, as text.
    pub file_paths: Option<Vec<String>>,
    /// Whether a file drop was on the clipboard.
    pub has_hdrop: bool,
    /// The application the content came from.
    pub source_app: Option<String>,
}

/// Text wins over an image, an image over files; with nothing, text.
pub open spec fn content_type_spec(c: RawClipContent) -> ContentType {
    if c.text is Some {
        ContentType::Text
    } else if c.image is Some {
        ContentType::Image
    } else if c.file_paths is Some {
        ContentType::File
    } else {
        ContentType::Text
    }
}

/// The text stored with a capture: its text when not empty, else its first file path.
pub open spec fn content_text_spec(c: RawClipContent) -> Option<Seq<char>> {
    if c.text is Some && c.text.unwrap()@.len() > 0 {
        Some(c.text.unwrap()@)
    } else if c.file_paths is Some && c.file_paths.unwrap()@.len() > 0 {
        Some(c.file_paths.unwrap()@[0]@)
    } else {
        None
    }
}

/// The image bytes stored with a capture, when image storage is enabled.
pub open spec fn content_blob_spec(c: RawClipContent, image_storage_enabled: bool) -> Option<Seq<u8>> {
    if image_storage_enabled && c.image is Some {
        Some(c.image.unwrap()@)
    } else {
        None
    }
}

impl RawClipContent {
    /// The content type of the record made from this capture.
    pub fn determine_content_type(&self) -> (r: ContentType)
        ensures
            r == content_type_spec(*self),
    {
        if self.text.is_some() {
            ContentType::Text
        } else if self.image.is_some() {
            ContentType::Image
        } else if self.file_paths.is_some() {
            ContentType::File
        } else {
            ContentType::Text
        }
    }

    /// Whether the capture found anything to record.
    pub fn has_content(&self) -> (r: bool)
        ensures
            r == (self.text is Some || self.image is Some || self.file_paths is Some),
    {
        self.text.is_some() || self.image.is_some() || self.file_paths.is_some()
    }

    /// The value of the record's text.
    pub fn get_content_text(&self) -> (r: Option<String>)
        ensures
            r matches Some(t) ==> content_text_spec(*self) == Some(t@),
            r is None ==> content_text_spec(*self) is None,
    {
        if let Some(text) = &self.text {
            if !text.as_str().is_empty() {
                return Some(text.clone());
            }
        }
        if let Some(paths) = &self.file_paths {
            if paths.len() > 0 {
                return Some(paths[0].clone());
            }
        }
        None
    }

    /// The value of the record's image bytes.
    pub fn get_content_blob(&self, image_storage_enabled: bool) -> (r: Option<Vec<u8>>)
        ensures
            r matches Some(b) ==> content_blob_spec(*self, image_storage_enabled) == Some(b@),
            r is None ==> content_blob_spec(*self, image_storage_enabled) is None,
    {
        if !image_storage_enabled {
            return None;
        }
        match &self.image {
            Some(img) => {
                let b = copy_bytes(img);
                Some(b)
            },
            None => None,
        }
    }
}

/// A copy of a byte vector.
pub fn copy_bytes(v: &Vec<u8>) -> (r: Vec<u8>)
    ensures
        r@ == v@,
{
    let mut r: Vec<u8> = Vec::with_capacity(v.len());
    let mut i: usize = 0;
    while i < v.len()
        invariant
            i <= v.len(),
            r@ == v@.take(i as int),
        decreases v.len() - i,
    {
        r.push(v[i]);
        i += 1;
        proof {
            assert(r@ =~= v@.take(i as int));
        }
    }
    proof {
        assert(v@.take(v.len() as int) =~= v@);
    }
    r
}

} // verus!
