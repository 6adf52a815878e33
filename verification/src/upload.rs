//! Attachments: which files are accepted and under what names they are kept.
//!
//! A file is accepted by the extension of the name it was uploaded under,
//! compared without regard to case. It is kept under a fresh random name with
//! that extension, its thumbnail under the same name with a fixed ending.

use crate::model::opt_text;
use crate::text::{has_prefix, lowercase_settled, lowercased, occurs_at, same_text};
use vstd::slice::slice_to_vec;
use vstd::prelude::*;
use vstd::string::StringExecFns;

verus! {

/// The name of the form field that holds the attached file.
pub const FILE_FIELD: &'static str = "file";

/// Whether a form field is the one that holds the attached file.
pub fn is_file_field(field: &str) -> (file: bool)
    ensures
        file == (field@ == FILE_FIELD@),
{
    same_text(field, FILE_FIELD)
}

/// The ending of every thumbnail's name.
pub const THUMB_SUFFIX: &'static str = "_thumb.jpg";

/// The extensions of the files that may be attached, in lower case.
pub open spec fn allowed_extension(ext: Seq<char>) -> bool {
    ext == "jpg"@ || ext == "jpeg"@ || ext == "png"@ || ext == "gif"@ || ext == "webp"@
}

/// What a file step decides.
pub enum FileStep {
    /// There is no file to keep; the submission goes on without one.
    Ignore,
    /// The file is of a kind that is not accepted: its content is to be read
    /// and thrown away, and the submission is marked for rejection.
    Discard,
    /// The file is to be written under `stored_name` and its thumbnail, if one
    /// can be made, under `thumb_name`.
    Store { stored_name: String, thumb_name: String },
}

/// What a [`FileStep`] holds, as mathematical values.
pub enum FileStepView {
    Ignore,
    Discard,
    Store { stored_name: Seq<char>, thumb_name: Seq<char> },
}

impl View for FileStep {
    type V = FileStepView;

    open spec fn view(&self) -> FileStepView {
        match self {
            FileStep::Ignore => FileStepView::Ignore,
            FileStep::Discard => FileStepView::Discard,
            FileStep::Store { stored_name, thumb_name } => FileStepView::Store {
                stored_name: stored_name@,
                thumb_name: thumb_name@,
            },
        }
    }
}

/// The name under which a file is kept: the token, a dot, the extension.
pub open spec fn stored_name_of(token: Seq<char>, ext: Seq<char>) -> Seq<char> {
    token + "."@ + ext
}

/// The name under which the thumbnail of a file is kept.
pub open spec fn thumb_name_of(token: Seq<char>) -> Seq<char> {
    token + THUMB_SUFFIX@
}

/// What becomes of a file field. A field without a file name, or with an
/// empty one, holds no file. A file whose extension, in lower case, is not an
/// allowed one is discarded. An allowed file without content is passed over.
/// Any other file is kept under names made from `token` and the extension in
/// lower case.
pub open spec fn file_step_of(
    file_name: Option<Seq<char>>,
    extension: Seq<char>,
    size: nat,
    token: Seq<char>,
) -> FileStepView {
    if file_name is None || file_name->0.len() == 0 {
        FileStepView::Ignore
    } else if !allowed_extension(lowercased(extension)) {
        FileStepView::Discard
    } else if size == 0 {
        FileStepView::Ignore
    } else {
        FileStepView::Store {
            stored_name: stored_name_of(token, lowercased(extension)),
            thumb_name: thumb_name_of(token),
        }
    }
}

/// A character of a random token: a digit, a letter from `a` to `f`, or a
/// hyphen.
pub open spec fn token_char(c: char) -> bool {
    ('0' <= c && c <= '9') || ('a' <= c && c <= 'f') || c == '-'
}

/// A random token as it is written: 36 characters, each a lowercase
/// hexadecimal digit or a hyphen.
pub open spec fn well_formed_token(token: Seq<char>) -> bool {
    &&& token.len() == 36
    &&& forall|i: int| 0 <= i < token.len() ==> token_char(#[trigger] token[i])
}

/// A file that is kept is kept under a well-formed token and an allowed
/// extension, and its thumbnail under the same token.
pub open spec fn kept_under_fresh_names(step: FileStepView) -> bool {
    step matches FileStepView::Store { stored_name, thumb_name } ==> exists|
        token: Seq<char>,
        ext: Seq<char>,
    |
        {
            &&& allowed_extension(ext)
            &&& well_formed_token(token)
            &&& stored_name == stored_name_of(token, ext)
            &&& thumb_name == thumb_name_of(token)
        }
}

/// A bare name is a file name and nothing else: it holds no separator of
/// path components (`/`, `\\`), no colon that could end a drive or a device,
/// and it is not the name `..` of the directory above.
pub open spec fn bare_name(name: Seq<char>) -> bool {
    &&& forall|i: int|
        0 <= i < name.len() ==> (#[trigger] name[i]) != '/' && name[i] != '\\' && name[i] != ':'
    &&& name != seq!['.', '.']
}

/// Where the last dot of a name stands, or -1 if it holds none.
pub open spec fn last_dot(name: Seq<char>) -> int
    decreases name.len(),
{
    if name.len() == 0 {
        -1
    } else if name.last() == '.' {
        name.len() - 1
    } else {
        last_dot(name.drop_last())
    }
}

/// The extension of a bare name: what follows its last dot, unless the name
/// holds no dot or none but the one it begins with.
pub open spec fn bare_extension(name: Seq<char>) -> Option<Seq<char>> {
    if last_dot(name) > 0 {
        Some(name.skip(last_dot(name) + 1))
    } else {
        None
    }
}

/// The extension that is found in a file name, as far as that is settled:
/// for a bare name it is the name's extension, and empty where the name has
/// none. In a name that holds more than a file name the platform's rules for
/// paths decide, and nothing is said.
pub open spec fn extension_found(file_name: Option<Seq<char>>, extension: Seq<char>) -> bool {
    (file_name is Some && bare_name(file_name->0)) ==> extension == match bare_extension(
        file_name->0,
    ) {
        Some(e) => e,
        None => Seq::empty(),
    }
}

/// Calls `Path::new` and `Path::extension` of the standard library.
///
/// Trusted: a name without separators, colon or `..` is one component of a
/// path on every platform, and of such a name the extension is what follows
/// the last dot, and there is none if the name holds no dot or only the dot
/// it begins with. Of any other name nothing is claimed: there the
/// platform's rules for paths decide what the file name is.
#[verifier::external_body]
fn path_extension(file_name: &str) -> (r: Option<String>)
    ensures
        bare_name(file_name@) ==> opt_text(r) == bare_extension(file_name@),
{
    std::path::Path::new(file_name).extension().and_then(|e| e.to_str()).map(|e| e.to_string())
}

/// Calls `Uuid::new_v4` of the `uuid` crate and writes the identifier with
/// `to_string`.
///
/// Trusted: whatever identifier is drawn, it is written as 36 characters,
/// each a lowercase hexadecimal digit or a hyphen. `uuid` panics if the
/// system has no source of randomness.
#[verifier::external_body]
fn random_token() -> (token: String)
    ensures
        well_formed_token(token@),
{
    uuid::Uuid::new_v4().to_string()
}

/// The greatest width of a thumbnail, in pixels.
pub const THUMB_WIDTH: u32 = 150;

/// The greatest height of a thumbnail, in pixels.
pub const THUMB_HEIGHT: u32 = 150;

/// Whether `load_from_memory` of the `image` crate reads the content as an
/// image.
pub uninterp spec fn readable_image(content: Seq<u8>) -> bool;

/// A thumbnail: a small picture, encoded as JPEG.
pub struct Thumbnail {
    /// The encoded picture.
    pub bytes: Vec<u8>,
    /// Its width in pixels.
    pub width: u32,
    /// Its height in pixels.
    pub height: u32,
}

impl Thumbnail {
    /// Whether the thumbnail is a picture of `content` within the bounds
    /// given, as far as that is settled: the content reads as an image, and
    /// the thumbnail is at least one pixel and at most the bounds in either
    /// direction.
    pub open spec fn made_of(self, content: Seq<u8>, max_width: int, max_height: int) -> bool {
        &&& readable_image(content)
        &&& 1 <= self.width <= max_width
        &&& 1 <= self.height <= max_height
    }
}

/// Calls `load_from_memory`, `DynamicImage::resize` with the Lanczos filter
/// of window three, `DynamicImage::write_to` for JPEG, and
/// `DynamicImage::width` and `height`, all of the `image` crate: the content
/// is read as an image, scaled to the greatest size that fits the bounds
/// with its proportions kept, and encoded.
///
/// Trusted: a thumbnail comes back only of content that reads as an image,
/// and it fits the bounds. Nothing is claimed of its bytes, which come of
/// arithmetic that need not agree between machines, nor that every image
/// that can be read can be encoded.
#[verifier::external_body]
pub(crate) fn decode_and_thumbnail(content: &[u8], max_width: u32, max_height: u32) -> (r: Option<
    Thumbnail,
>)
    requires
        max_width > 0,
        max_height > 0,
    ensures
        r is Some ==> readable_image(content@),
        r matches Some(t) ==> 1 <= t.width <= max_width && 1 <= t.height <= max_height,
{
    let picture = image::load_from_memory(content).ok()?;
    let small = picture.resize(max_width, max_height, image::imageops::FilterType::Lanczos3);
    let mut out = std::io::Cursor::new(Vec::new());
    small.write_to(&mut out, image::ImageFormat::Jpeg).ok()?;
    Some(Thumbnail { bytes: out.into_inner(), width: small.width(), height: small.height() })
}

/// A file to be written, and its thumbnail if one could be made.
pub struct Upload {
    /// The name under which the file is kept.
    pub stored_name: String,
    /// The name under which the thumbnail is kept.
    pub thumb_name: String,
    /// What the file holds.
    pub content: Vec<u8>,
    /// The thumbnail; absent where the file could not be read as an image.
    pub thumbnail: Option<Thumbnail>,
}

impl Upload {
    /// Whether the upload is the file with the content `content`, to be kept
    /// under the names given, with a thumbnail, if it has one, that was made
    /// of that content within the bounds of thumbnails.
    pub open spec fn holds(self, stored_name: Seq<char>, thumb_name: Seq<char>, content: Seq<u8>) -> bool {
        &&& self.stored_name@ == stored_name
        &&& self.thumb_name@ == thumb_name
        &&& self.content@ == content
        &&& (self.thumbnail matches Some(t) ==> t.made_of(
            content,
            THUMB_WIDTH as int,
            THUMB_HEIGHT as int,
        ))
    }
}

/// Makes the upload of a file that is to be kept under the names given: has
/// a thumbnail made of its content and takes a copy of the content.
pub fn prepare_upload(stored_name: String, thumb_name: String, content: &[u8]) -> (upload: Upload)
    ensures
        upload.holds(stored_name@, thumb_name@, content@),
{
    let thumbnail = decode_and_thumbnail(content, THUMB_WIDTH, THUMB_HEIGHT);
    Upload { stored_name, thumb_name, content: slice_to_vec(content), thumbnail }
}

/// Whether an extension, in lower case, is one of those accepted.
pub fn is_allowed_extension(lower: &str) -> (ok: bool)
    ensures
        ok == allowed_extension(lower@),
{
    same_text(lower, "jpg") || same_text(lower, "jpeg") || same_text(lower, "png") || same_text(
        lower,
        "gif",
    ) || same_text(lower, "webp")
}

/// Decides what becomes of a file field, given the extension of the file name
/// and the token to name the file by.
pub fn file_step(file_name: Option<&str>, extension: &str, size: usize, token: &str) -> (step:
    FileStep)
    ensures
        step@ == file_step_of(
            match file_name {
                Some(n) => Some(n@),
                None => None,
            },
            extension@,
            size as nat,
            token@,
        ),
        (file_name is Some && file_name->0@.len() > 0) ==> lowercase_settled(extension@),
{
    match file_name {
        None => FileStep::Ignore,
        Some(name) => {
            if name.is_empty() {
                return FileStep::Ignore;
            }
            let lower = extension.to_lowercase();
            if !is_allowed_extension(lower.as_str()) {
                return FileStep::Discard;
            }
            if size == 0 {
                return FileStep::Ignore;
            }
            let mut stored_name = token.to_owned();
            stored_name.append(".");
            stored_name.append(lower.as_str());
            let mut thumb_name = token.to_owned();
            thumb_name.append(THUMB_SUFFIX);
            FileStep::Store { stored_name, thumb_name }
        },
    }
}

/// The file name of a field as text, if the field has one.
pub open spec fn file_name_text(file_name: Option<&str>) -> Option<Seq<char>> {
    match file_name {
        Some(name) => Some(name@),
        None => None,
    }
}

/// What receiving a file field comes to. A field without a file name holds
/// no file. For any other the step is the one that [`file_step_of`] decides,
/// for the extension that was found in the file name, whose lowercase form
/// is settled if it is of ASCII, and some well-formed token that was drawn.
pub open spec fn received_as(file_name: Option<Seq<char>>, size: nat, step: FileStepView) -> bool {
    if file_name is None || file_name->0.len() == 0 {
        step is Ignore
    } else {
        exists|extension: Seq<char>, token: Seq<char>|
            well_formed_token(token) && extension_found(file_name, extension) && lowercase_settled(
                extension,
            ) && step == #[trigger] file_step_of(file_name, extension, size, token)
    }
}

/// What is received as a file to keep has content, an allowed extension and
/// fresh names.
pub proof fn lemma_received_file_is_kept_under_fresh_names(
    file_name: Option<Seq<char>>,
    size: nat,
    step: FileStepView,
)
    requires
        received_as(file_name, size, step),
    ensures
        step is Store ==> size > 0 && file_name is Some && file_name->0.len() > 0,
        kept_under_fresh_names(step),
{
    if step is Store {
        let (extension, token) = choose|extension: Seq<char>, token: Seq<char>|
            well_formed_token(token) && extension_found(file_name, extension) && lowercase_settled(
                extension,
            ) && step == #[trigger] file_step_of(file_name, extension, size, token);
        let ext = lowercased(extension);
        assert(allowed_extension(ext));
        assert(step->stored_name == stored_name_of(token, ext));
        assert(step->thumb_name == thumb_name_of(token));
    }
}

/// Decides what becomes of the file field of a submission: finds the
/// extension of the file name, draws a token, and decides by [`file_step`].
///
/// Which token is drawn is not known before the call, nor which extension
/// is found in a name that holds more than a file name. The step is the one
/// that [`file_step_of`] decides for the extension found and the token
/// drawn: no file for a field without a file name; for any other, the file
/// discarded if the extension is not an allowed one, passed over if it is
/// allowed and the file has no content, and otherwise kept under names made
/// from the token and the extension in lower case. Of a bare name the
/// extension is what follows its last dot.
pub fn receive_file(file_name: Option<&str>, size: usize) -> (step: FileStep)
    ensures
        received_as(file_name_text(file_name), size as nat, step@),
        (file_name is None || file_name->0@.len() == 0) ==> step@ is Ignore,
        step@ is Store ==> size > 0,
        kept_under_fresh_names(step@),
{
    let step = match file_name {
        None => FileStep::Ignore,
        Some(name) => {
            if name.is_empty() {
                FileStep::Ignore
            } else {
                let extension = match path_extension(name) {
                    Some(e) => e,
                    None => String::new(),
                };
                let token = random_token();
                let step = file_step(file_name, extension.as_str(), size, token.as_str());
                assert(extension_found(file_name_text(file_name), extension@));
                assert(step@ == file_step_of(
                    file_name_text(file_name),
                    extension@,
                    size as nat,
                    token@,
                ));
                step
            }
        },
    };
    proof {
        lemma_received_file_is_kept_under_fresh_names(
            file_name_text(file_name),
            size as nat,
            step@,
        );
    }
    step
}

/// The largest image, in bytes, that a journal keeps.
pub const MAX_IMAGE_BYTES: usize = 5242880;

/// How the media type of every image begins.
pub const IMAGE_TYPE_PREFIX: &'static str = "image/";

/// Where kept files are served from.
pub const UPLOADS_PATH: &'static str = "/static/uploads/";

/// What an image step decides.
pub enum ImageStep {
    /// There is no image to keep; the submission goes on without one.
    Skip,
    /// The image is larger than [`MAX_IMAGE_BYTES`]; the submission fails.
    TooLarge,
    /// The image is to be written under `stored_name`.
    Keep { stored_name: String },
}

/// What an [`ImageStep`] holds, as mathematical values.
pub enum ImageStepView {
    Skip,
    TooLarge,
    Keep { stored_name: Seq<char> },
}

impl View for ImageStep {
    type V = ImageStepView;

    open spec fn view(&self) -> ImageStepView {
        match self {
            ImageStep::Skip => ImageStepView::Skip,
            ImageStep::TooLarge => ImageStepView::TooLarge,
            ImageStep::Keep { stored_name } => ImageStepView::Keep { stored_name: stored_name@ },
        }
    }
}

/// What becomes of the file field of a journal entry. A field without a file
/// name, or with an empty one, holds no image; nor does one whose media type
/// is not an image's. An image over the size limit fails the submission. An
/// image whose name has no extension is passed over. Any other image is kept
/// under a name made from `token` and the extension as it came.
pub open spec fn image_step_of(
    file_name: Option<Seq<char>>,
    content_type: Seq<char>,
    size: nat,
    extension: Seq<char>,
    token: Seq<char>,
) -> ImageStepView {
    if file_name is None || file_name->0.len() == 0 {
        ImageStepView::Skip
    } else if !occurs_at(content_type, IMAGE_TYPE_PREFIX@, 0) {
        ImageStepView::Skip
    } else if size > MAX_IMAGE_BYTES {
        ImageStepView::TooLarge
    } else if extension.len() == 0 {
        ImageStepView::Skip
    } else {
        ImageStepView::Keep { stored_name: stored_name_of(token, extension) }
    }
}

/// The address under which a kept file is served.
pub open spec fn upload_url(stored_name: Seq<char>) -> Seq<char> {
    UPLOADS_PATH@ + stored_name
}

/// Decides what becomes of the file field of a journal entry, given the
/// extension of the file name and the token to name the file by.
pub fn image_step(
    file_name: Option<&str>,
    content_type: &str,
    size: usize,
    extension: &str,
    token: &str,
) -> (step: ImageStep)
    ensures
        step@ == image_step_of(
            match file_name {
                Some(n) => Some(n@),
                None => None,
            },
            content_type@,
            size as nat,
            extension@,
            token@,
        ),
{
    match file_name {
        None => ImageStep::Skip,
        Some(name) => {
            if name.is_empty() {
                return ImageStep::Skip;
            }
            if !has_prefix(content_type, IMAGE_TYPE_PREFIX) {
                return ImageStep::Skip;
            }
            if size > MAX_IMAGE_BYTES {
                return ImageStep::TooLarge;
            }
            if extension.is_empty() {
                return ImageStep::Skip;
            }
            let mut stored_name = token.to_owned();
            stored_name.append(".");
            stored_name.append(extension);
            ImageStep::Keep { stored_name }
        },
    }
}

/// What receiving the file field of a journal entry comes to. A field
/// without a file name holds no image. For any other the step is the one
/// that [`image_step_of`] decides, for the extension that was found in the
/// file name and some well-formed token that was drawn.
pub open spec fn image_received_as(
    file_name: Option<Seq<char>>,
    content_type: Seq<char>,
    size: nat,
    step: ImageStepView,
) -> bool {
    if file_name is None || file_name->0.len() == 0 {
        step is Skip
    } else {
        exists|extension: Seq<char>, token: Seq<char>|
            well_formed_token(token) && extension_found(file_name, extension) && step
                == #[trigger] image_step_of(file_name, content_type, size, extension, token)
    }
}

/// Decides what becomes of the file field of a journal entry: finds the
/// extension of the file name, draws a token, and decides by [`image_step`].
///
/// Which token is drawn is not known before the call, nor which extension
/// is found in a name that holds more than a file name. The step is the one
/// that [`image_step_of`] decides for the extension found and the token
/// drawn. Of a bare name the extension is what follows its last dot.
pub fn receive_image(file_name: Option<&str>, content_type: &str, size: usize) -> (step: ImageStep)
    ensures
        image_received_as(file_name_text(file_name), content_type@, size as nat, step@),
        (file_name is None || file_name->0@.len() == 0) ==> step@ is Skip,
        !occurs_at(content_type@, IMAGE_TYPE_PREFIX@, 0) ==> step@ is Skip,
        step@ is TooLarge <==> file_name is Some && file_name->0@.len() > 0 && occurs_at(
            content_type@,
            IMAGE_TYPE_PREFIX@,
            0,
        ) && size > MAX_IMAGE_BYTES,
        step@ matches ImageStepView::Keep { stored_name } ==> exists|
            token: Seq<char>,
            ext: Seq<char>,
        |
            {
                &&& ext.len() > 0
                &&& well_formed_token(token)
                &&& stored_name == stored_name_of(token, ext)
            },
{
    match file_name {
        None => ImageStep::Skip,
        Some(name) => {
            if name.is_empty() {
                return ImageStep::Skip;
            }
            let extension = match path_extension(name) {
                Some(e) => e,
                None => String::new(),
            };
            let token = random_token();
            let step = image_step(
                file_name,
                content_type,
                size,
                extension.as_str(),
                token.as_str(),
            );
            proof {
                assert(extension_found(file_name_text(file_name), extension@));
                assert(step@ == image_step_of(
                    file_name_text(file_name),
                    content_type@,
                    size as nat,
                    extension@,
                    token@,
                ));
                if step@ is Keep {
                    assert(step@->stored_name == stored_name_of(token@, extension@));
                }
            }
            step
        },
    }
}

/// The address under which the file kept as `stored_name` is served.
pub fn url_of_upload(stored_name: &str) -> (url: String)
    ensures
        url@ == upload_url(stored_name@),
{
    let mut url = UPLOADS_PATH.to_owned();
    url.append(stored_name);
    url
}

} // verus!
