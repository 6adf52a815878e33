//! The submission pipeline: from the fields of a form to a stored post.
//!
//! A submission is parsed field by field into a draft, the draft is validated,
//! and what passes is stored. A submission that is rejected stores nothing.
//!
//! The stages of a submission are the values it passes through. While the
//! form is parsed it is a draft, fed by `text_field` and, for the file of a
//! new thread, by `attach`, which takes the file into the draft and hands
//! nothing out. `finish` validates the draft: it gives the post to persist,
//! and with it the file to write, or the rejection and nothing to write.
//! `store_thread` and `store_reply` persist the post, and
//! `redirect_after_thread` and `redirect_after_reply` say where the poster
//! goes at the end. `submit_thread` and `submit_reply` run a draft through
//! validation and persistence against a board in memory.

use crate::clock::{label_of, time_label, TIME_FORMAT};
use crate::model::{opt_text, Post, PostView, ANONYMOUS};
use crate::pages::{thread_address, thread_path, INDEX_PATH};
use crate::store::{with_bump, with_post, Board, BoardView, StorageError};
use crate::text::{
    blank, blank_settled, is_blank, lowercase_settled, name_settled, replace_all, replaced,
    same_text, trim, trimmed,
};
use crate::upload::{
    extension_found, file_name_text, file_step_of, is_file_field, kept_under_fresh_names,
    prepare_upload, receive_file, received_as, well_formed_token, FILE_FIELD, FileStep,
    FileStepView, Upload,
};
use vstd::prelude::*;
use vstd::string::StringExecFns;

verus! {

/// Why a submission was turned down.
#[derive(Clone, Copy, Debug, PartialEq, Eq, Structural)]
pub enum Rejection {
    /// The attached file is of a kind that is not accepted.
    InvalidFileType,
    /// A new thread came without a subject or without a message.
    MissingSubjectOrComment,
    /// A reply came without a message.
    MissingComment,
}

/// The reason shown to the poster when an attachment is not accepted.
pub const REASON_FILE_TYPE: &'static str = "Invalid file type. Allowed: jpg, jpeg, png, gif, webp";

/// The reason shown to the poster when a new thread lacks subject or message.
pub const REASON_SUBJECT_OR_COMMENT: &'static str = "Missing subject or comment";

/// The reason shown to the poster when a reply lacks its message.
pub const REASON_COMMENT: &'static str = "Missing comment";

/// A text as it is written into the query part of an address: every space
/// encoded, all else as it is. The reasons of rejections hold no other
/// character that an address cannot hold.
pub open spec fn query_encoded(text: Seq<char>) -> Seq<char> {
    replaced(text, " "@, "%20"@)
}

impl Rejection {
    /// The reason for the rejection, in words.
    pub open spec fn reason_text(self) -> Seq<char> {
        match self {
            Rejection::InvalidFileType => REASON_FILE_TYPE@,
            Rejection::MissingSubjectOrComment => REASON_SUBJECT_OR_COMMENT@,
            Rejection::MissingComment => REASON_COMMENT@,
        }
    }

    /// The reason for the rejection, as it is written into an address.
    pub open spec fn query_text(self) -> Seq<char> {
        query_encoded(self.reason_text())
    }

    /// The reason for the rejection, in words.
    pub fn reason(&self) -> (text: &'static str)
        ensures
            text@ == self.reason_text(),
    {
        match self {
            Rejection::InvalidFileType => REASON_FILE_TYPE,
            Rejection::MissingSubjectOrComment => REASON_SUBJECT_OR_COMMENT,
            Rejection::MissingComment => REASON_COMMENT,
        }
    }

    /// The reason for the rejection, encoded for the query part of an address.
    pub fn query_value(&self) -> (text: String)
        ensures
            text@ == self.query_text(),
    {
        replace_all(self.reason(), " ", "%20")
    }
}

/// The display name after a name field with the text `value` has been read:
/// the text without the whitespace around it, or the name so far where that
/// leaves nothing.
pub open spec fn name_after(current: Seq<char>, value: Seq<char>) -> Seq<char> {
    if blank(value) {
        current
    } else {
        trimmed(value)
    }
}

/// A text field after a field with the text `value` has been read: the text
/// as it came, or what was there before where the text is blank.
pub open spec fn text_after(current: Option<Seq<char>>, value: Seq<char>) -> Option<Seq<char>> {
    if blank(value) {
        current
    } else {
        Some(value)
    }
}

/// What is known of reading a text field without looking into the Unicode
/// tables: of a name, what is kept of it; of a subject or a message, whether
/// it is blank.
pub open spec fn reading_settled(field: Seq<char>, value: Seq<char>) -> bool {
    &&& field == "name"@ ==> name_settled(value)
    &&& (field == "subject"@ || field == "message"@) ==> blank_settled(value)
}

/// What is known of reading a text field of a reply without looking into
/// the Unicode tables: of a name, what is kept of it; of a message, whether
/// it is blank.
pub open spec fn reply_reading_settled(field: Seq<char>, value: Seq<char>) -> bool {
    &&& field == "name"@ ==> name_settled(value)
    &&& field == "message"@ ==> blank_settled(value)
}

/// A new thread in the making: what the fields read so far amount to.
pub struct ThreadDraft {
    pub name: String,
    pub subject: Option<String>,
    pub message: Option<String>,
    pub filename: Option<String>,
    pub thumbname: Option<String>,
    pub invalid_file: bool,
    /// The file that is to be written once the draft has passed validation.
    pub upload: Option<Upload>,
}

/// What a [`ThreadDraft`] holds, as mathematical values.
pub struct ThreadDraftView {
    pub name: Seq<char>,
    pub subject: Option<Seq<char>>,
    pub message: Option<Seq<char>>,
    pub filename: Option<Seq<char>>,
    pub thumbname: Option<Seq<char>>,
    pub invalid_file: bool,
    pub upload: Option<Upload>,
}

impl View for ThreadDraft {
    type V = ThreadDraftView;

    open spec fn view(&self) -> ThreadDraftView {
        ThreadDraftView {
            name: self.name@,
            subject: opt_text(self.subject),
            message: opt_text(self.message),
            filename: opt_text(self.filename),
            thumbname: opt_text(self.thumbname),
            invalid_file: self.invalid_file,
            upload: self.upload,
        }
    }
}

impl ThreadDraftView {
    /// The draft before any field has been read.
    pub open spec fn empty() -> ThreadDraftView {
        ThreadDraftView {
            name: ANONYMOUS@,
            subject: None,
            message: None,
            filename: None,
            thumbname: None,
            invalid_file: false,
            upload: None,
        }
    }

    /// The draft after a text field has been read. Only the fields `name`,
    /// `subject` and `message` count; any other is passed over.
    pub open spec fn with_text(self, field: Seq<char>, value: Seq<char>) -> ThreadDraftView {
        if field == "name"@ {
            ThreadDraftView { name: name_after(self.name, value), ..self }
        } else if field == "subject"@ {
            ThreadDraftView { subject: text_after(self.subject, value), ..self }
        } else if field == "message"@ {
            ThreadDraftView { message: text_after(self.message, value), ..self }
        } else {
            self
        }
    }

    /// The draft after a file field has been decided: a discarded file marks
    /// the draft, anything else leaves it as it is.
    pub open spec fn with_file_step(self, step: FileStepView) -> ThreadDraftView {
        if step is Discard {
            ThreadDraftView { invalid_file: true, ..self }
        } else {
            self
        }
    }

    /// The draft after the names of an attachment that the caller keeps
    /// itself have been recorded: the file's name, and the thumbnail's if
    /// one could be made. Nothing is left for the draft to hand out.
    pub open spec fn with_attachment(
        self,
        stored_name: Seq<char>,
        thumb_name: Seq<char>,
        thumbnail_made: bool,
    ) -> ThreadDraftView {
        ThreadDraftView {
            filename: Some(stored_name),
            thumbname: if thumbnail_made {
                Some(thumb_name)
            } else {
                None
            },
            upload: None,
            ..self
        }
    }

    /// The draft after a file has been taken into it: the draft records the
    /// file's name, the thumbnail's if the upload has one, and holds the
    /// upload until it has passed validation.
    pub open spec fn with_upload(self, upload: Upload) -> ThreadDraftView {
        ThreadDraftView {
            filename: Some(upload.stored_name@),
            thumbname: if upload.thumbnail is Some {
                Some(upload.thumb_name@)
            } else {
                None
            },
            upload: Some(upload),
            ..self
        }
    }

    /// What the draft hands out for writing when it is finished: its upload
    /// if it passes validation, and nothing if it is rejected.
    pub open spec fn released(self) -> Option<Upload> {
        if self.rejection() is None {
            self.upload
        } else {
            None
        }
    }

    /// Why the draft cannot become a thread, if it cannot: a file that was
    /// not accepted rejects it whatever else it holds; otherwise it needs a
    /// subject and a message.
    pub open spec fn rejection(self) -> Option<Rejection> {
        if self.invalid_file {
            Some(Rejection::InvalidFileType)
        } else if self.subject is None || self.message is None {
            Some(Rejection::MissingSubjectOrComment)
        } else {
            None
        }
    }

    /// The post that starts the thread, as it is handed to the store at the
    /// instant `now`.
    pub open spec fn post(self, now: int) -> PostView {
        PostView {
            id: 0,
            thread_id: 0,
            bump_timestamp: now,
            name: self.name,
            subject: self.subject,
            message: self.message->0,
            filename: self.filename,
            thumbname: self.thumbname,
            time: label_of(now, TIME_FORMAT@),
        }
    }
}

/// One text field of a form: its name and the text it holds.
pub struct TextField {
    pub name: String,
    pub value: String,
}

/// What a [`TextField`] holds, as mathematical values.
pub struct TextFieldView {
    pub name: Seq<char>,
    pub value: Seq<char>,
}

impl View for TextField {
    type V = TextFieldView;

    open spec fn view(&self) -> TextFieldView {
        TextFieldView { name: self.name@, value: self.value@ }
    }
}

/// What a sequence of text fields holds, as mathematical values.
pub open spec fn field_views(fields: Seq<TextField>) -> Seq<TextFieldView> {
    Seq::new(fields.len(), |i: int| fields[i]@)
}

impl ThreadDraftView {
    /// The draft after the text fields `fields` have been read in order.
    pub open spec fn with_fields(self, fields: Seq<TextFieldView>) -> ThreadDraftView
        decreases fields.len(),
    {
        if fields.len() == 0 {
            self
        } else {
            self.with_fields(fields.drop_last()).with_text(fields.last().name, fields.last().value)
        }
    }
}

/// What attaching a file comes to once its step is decided. A file that is
/// to be kept is taken into the draft as an upload that holds the content
/// under the names decided, with a thumbnail only of content that reads as
/// an image. Any other step leaves the draft as [`with_file_step`] says.
///
/// [`with_file_step`]: ThreadDraftView::with_file_step
pub open spec fn attach_outcome(
    before: ThreadDraftView,
    step: FileStepView,
    content: Seq<u8>,
    after: ThreadDraftView,
) -> bool {
    match step {
        FileStepView::Store { stored_name, thumb_name } => {
            &&& after.upload is Some
            &&& after.upload->0.holds(stored_name, thumb_name, content)
            &&& after == before.with_upload(after.upload->0)
        },
        _ => after == before.with_file_step(step),
    }
}

/// What attaching a file comes to. A field without a file name leaves the
/// draft as it is. For any other it is the outcome for the step that
/// [`file_step_of`] decides, for the extension that was found in the file
/// name, whose lowercase form is settled if it is of ASCII, and some
/// well-formed token that was drawn.
pub open spec fn attached_as(
    before: ThreadDraftView,
    file_name: Option<Seq<char>>,
    content: Seq<u8>,
    after: ThreadDraftView,
) -> bool {
    if file_name is None || file_name->0.len() == 0 {
        after == before
    } else {
        exists|extension: Seq<char>, token: Seq<char>|
            well_formed_token(token) && extension_found(file_name, extension) && lowercase_settled(
                extension,
            ) && attach_outcome(
                before,
                #[trigger] file_step_of(file_name, extension, content.len(), token),
                content,
                after,
            )
    }
}

/// A draft that has passed validation: the post to persist, and the file to
/// write before it.
pub struct Accepted {
    /// The post that starts the thread. The store gives it its number.
    pub post: Post,
    /// The attached file, to be written before the post is persisted.
    pub upload: Option<Upload>,
}

impl ThreadDraft {
    /// Reads text fields of the form in the order in which they came.
    pub fn text_fields(&mut self, fields: &Vec<TextField>)
        ensures
            final(self)@ == old(self)@.with_fields(field_views(fields@)),
            forall|k: int|
                0 <= k < fields.len() ==> reading_settled(
                    (#[trigger] fields@[k]).name@,
                    fields@[k].value@,
                ),
    {
        let ghost all = field_views(fields@);
        let mut i: usize = 0;
        assert(all.take(0) =~= Seq::<TextFieldView>::empty());
        while i < fields.len()
            invariant
                i <= fields.len(),
                all == field_views(fields@),
                self@ == old(self)@.with_fields(all.take(i as int)),
                forall|k: int|
                    0 <= k < i ==> reading_settled(
                        (#[trigger] fields@[k]).name@,
                        fields@[k].value@,
                    ),
            decreases fields.len() - i,
        {
            self.text_field(fields[i].name.as_str(), fields[i].value.as_str());
            proof {
                let upto = all.take(i + 1);
                assert(upto.drop_last() =~= all.take(i as int));
                assert(upto.last() == fields@[i as int]@);
            }
            i += 1;
        }
        assert(all.take(all.len() as int) =~= all);
    }

    /// A draft that has read no field yet: the poster is anonymous and
    /// nothing else is there.
    pub fn new() -> (draft: ThreadDraft)
        ensures
            draft@ == ThreadDraftView::empty(),
    {
        ThreadDraft {
            name: ANONYMOUS.to_owned(),
            subject: None,
            message: None,
            filename: None,
            thumbname: None,
            invalid_file: false,
            upload: None,
        }
    }

    /// Reads a text field of the form.
    pub fn text_field(&mut self, field: &str, value: &str)
        ensures
            final(self)@ == old(self)@.with_text(field@, value@),
            reading_settled(field@, value@),
    {
        if same_text(field, "name") {
            if !is_blank(value) {
                self.name = trim(value);
            }
        } else if same_text(field, "subject") {
            if !is_blank(value) {
                self.subject = Some(value.to_owned());
            }
        } else if same_text(field, "message") {
            if !is_blank(value) {
                self.message = Some(value.to_owned());
            }
        }
    }

    /// Reads the file field of the form for a caller that keeps attachments
    /// itself: `file_name` is the name the file was uploaded under, if the
    /// field has one, and `size` the length of its content. The step that
    /// comes back says what is to become of the content.
    ///
    /// The step is the one that [`file_step_of`] decides for the field, for
    /// the extension found in the file name and the token drawn. A file that
    /// is discarded marks the draft; any other step leaves the draft as it
    /// is.
    pub fn file_field(&mut self, file_name: Option<&str>, size: usize) -> (step: FileStep)
        ensures
            received_as(file_name_text(file_name), size as nat, step@),
            final(self)@ == old(self)@.with_file_step(step@),
            (file_name is None || file_name->0@.len() == 0) ==> step@ is Ignore,
            step@ is Store ==> size > 0,
            kept_under_fresh_names(step@),
    {
        let step = receive_file(file_name, size);
        match &step {
            FileStep::Discard => {
                self.invalid_file = true;
            },
            _ => {},
        }
        step
    }

    /// Records, for a caller that keeps attachments itself, that the file
    /// is kept under `stored_name`, and whether a thumbnail could be made
    /// under `thumb_name`.
    pub fn attachment_stored(&mut self, stored_name: String, thumb_name: String, thumbnail_made: bool)
        ensures
            final(self)@ == old(self)@.with_attachment(stored_name@, thumb_name@, thumbnail_made),
    {
        self.filename = Some(stored_name);
        self.thumbname = if thumbnail_made {
            Some(thumb_name)
        } else {
            None
        };
        self.upload = None;
    }

    /// Reads the file field of the form with its content: decides what
    /// becomes of the file and, if it is to be kept, has a thumbnail made and
    /// takes the file into the draft. Nothing is handed out for writing:
    /// the draft holds the file until [`finish`](ThreadDraft::finish) has
    /// validated it.
    ///
    /// Which token is drawn is not known before the call, nor which
    /// extension is found in a name that holds more than a file name, nor
    /// whether a thumbnail can be made. The file is taken in exactly when
    /// [`file_step_of`] decides to keep it, with its content under the names
    /// decided, and with a thumbnail only if the content reads as an image;
    /// the draft then records the names. In every other case the draft is
    /// marked if the file was discarded and else left as it is.
    pub fn attach(&mut self, file_name: Option<&str>, content: &[u8])
        ensures
            attached_as(old(self)@, file_name_text(file_name), content@, final(self)@),
            (file_name is None || file_name->0@.len() == 0) ==> final(self)@ == old(self)@,
    {
        let ghost name = file_name_text(file_name);
        let step = self.file_field(file_name, content.len());
        let ghost decided = step@;
        match step {
            FileStep::Store { stored_name, thumb_name } => {
                let upload = prepare_upload(stored_name, thumb_name, content);
                self.filename = Some(upload.stored_name.clone());
                self.thumbname = if upload.thumbnail.is_some() {
                    Some(upload.thumb_name.clone())
                } else {
                    None
                };
                self.upload = Some(upload);
            },
            FileStep::Discard => {},
            FileStep::Ignore => {},
        }
        proof {
            if name is Some && name->0.len() > 0 {
                let (extension, token) = choose|extension: Seq<char>, token: Seq<char>|
                    well_formed_token(token) && extension_found(name, extension)
                        && lowercase_settled(extension) && decided == #[trigger] file_step_of(
                        name,
                        extension,
                        content@.len(),
                        token,
                    );
                assert(attach_outcome(
                    old(self)@,
                    file_step_of(name, extension, content@.len(), token),
                    content@,
                    self@,
                ));
            }
        }
    }

    /// Reads one part of the form, whatever it is. The part named
    /// [`FILE_FIELD`] is the attached file: it is read by
    /// [`attach`](ThreadDraft::attach) from its file name and its content. Any
    /// other part is a text field: it is read by
    /// [`text_field`](ThreadDraft::text_field) from its text.
    pub fn part(&mut self, field: &str, file_name: Option<&str>, content: &[u8], text: &str)
        ensures
            if field@ == FILE_FIELD@ {
                attached_as(old(self)@, file_name_text(file_name), content@, final(self)@)
            } else {
                final(self)@ == old(self)@.with_text(field@, text@) && reading_settled(
                    field@,
                    text@,
                )
            },
    {
        if is_file_field(field) {
            self.attach(file_name, content);
        } else {
            self.text_field(field, text);
        }
    }

    /// Validates the draft: says why it is rejected, or that it is not.
    pub fn check(&self) -> (r: Option<Rejection>)
        ensures
            r == self@.rejection(),
    {
        if self.invalid_file {
            Some(Rejection::InvalidFileType)
        } else if self.subject.is_none() || self.message.is_none() {
            Some(Rejection::MissingSubjectOrComment)
        } else {
            None
        }
    }

    /// Validates the draft. A draft that passes becomes the post that
    /// starts the thread, created at the instant `now`, and only then is the
    /// file that the draft holds handed out for writing. A draft that is
    /// rejected hands out nothing.
    pub fn finish(self, now: i64) -> (r: Result<Accepted, Rejection>)
        ensures
            match r {
                Ok(accepted) => {
                    &&& self@.rejection() is None
                    &&& accepted.post@ == self@.post(now as int)
                    &&& accepted.upload == self@.released()
                },
                Err(why) => self@.rejection() == Some(why) && self@.released() is None,
            },
    {
        if self.invalid_file {
            return Err(Rejection::InvalidFileType);
        }
        let message = match self.message {
            Some(m) => m,
            None => {
                return Err(Rejection::MissingSubjectOrComment);
            },
        };
        if self.subject.is_none() {
            return Err(Rejection::MissingSubjectOrComment);
        }
        Ok(
            Accepted {
                post: Post {
                    id: 0,
                    thread_id: 0,
                    bump_timestamp: now,
                    name: self.name,
                    subject: self.subject,
                    message,
                    filename: self.filename,
                    thumbname: self.thumbname,
                    time: time_label(now),
                },
                upload: self.upload,
            },
        )
    }
}

/// A reply in the making.
pub struct ReplyDraft {
    pub name: String,
    pub message: Option<String>,
}

/// What a [`ReplyDraft`] holds, as mathematical values.
pub struct ReplyDraftView {
    pub name: Seq<char>,
    pub message: Option<Seq<char>>,
}

impl View for ReplyDraft {
    type V = ReplyDraftView;

    open spec fn view(&self) -> ReplyDraftView {
        ReplyDraftView { name: self.name@, message: opt_text(self.message) }
    }
}

impl ReplyDraftView {
    /// The draft before any field has been read.
    pub open spec fn empty() -> ReplyDraftView {
        ReplyDraftView { name: ANONYMOUS@, message: None }
    }

    /// The draft after a text field has been read. Only the fields `name` and
    /// `message` count; any other is passed over.
    pub open spec fn with_text(self, field: Seq<char>, value: Seq<char>) -> ReplyDraftView {
        if field == "name"@ {
            ReplyDraftView { name: name_after(self.name, value), ..self }
        } else if field == "message"@ {
            ReplyDraftView { message: text_after(self.message, value), ..self }
        } else {
            self
        }
    }

    /// Why the draft cannot become a reply, if it cannot: it needs a message.
    pub open spec fn rejection(self) -> Option<Rejection> {
        if self.message is None {
            Some(Rejection::MissingComment)
        } else {
            None
        }
    }

    /// The reply to thread `thread_id`, as it is handed to the store at the
    /// instant `now`.
    pub open spec fn post(self, thread_id: int, now: int) -> PostView {
        PostView {
            id: 0,
            thread_id,
            bump_timestamp: 0,
            name: self.name,
            subject: None,
            message: self.message->0,
            filename: None,
            thumbname: None,
            time: label_of(now, TIME_FORMAT@),
        }
    }
}

impl ReplyDraftView {
    /// The draft after the text fields `fields` have been read in order.
    pub open spec fn with_fields(self, fields: Seq<TextFieldView>) -> ReplyDraftView
        decreases fields.len(),
    {
        if fields.len() == 0 {
            self
        } else {
            self.with_fields(fields.drop_last()).with_text(fields.last().name, fields.last().value)
        }
    }
}

impl ReplyDraft {
    /// Reads text fields of the form in the order in which they came.
    pub fn text_fields(&mut self, fields: &Vec<TextField>)
        ensures
            final(self)@ == old(self)@.with_fields(field_views(fields@)),
            forall|k: int|
                0 <= k < fields.len() ==> reply_reading_settled(
                    (#[trigger] fields@[k]).name@,
                    fields@[k].value@,
                ),
    {
        let ghost all = field_views(fields@);
        let mut i: usize = 0;
        assert(all.take(0) =~= Seq::<TextFieldView>::empty());
        while i < fields.len()
            invariant
                i <= fields.len(),
                all == field_views(fields@),
                self@ == old(self)@.with_fields(all.take(i as int)),
                forall|k: int|
                    0 <= k < i ==> reply_reading_settled(
                        (#[trigger] fields@[k]).name@,
                        fields@[k].value@,
                    ),
            decreases fields.len() - i,
        {
            self.text_field(fields[i].name.as_str(), fields[i].value.as_str());
            proof {
                let upto = all.take(i + 1);
                assert(upto.drop_last() =~= all.take(i as int));
                assert(upto.last() == fields@[i as int]@);
            }
            i += 1;
        }
        assert(all.take(all.len() as int) =~= all);
    }

    /// A draft that has read no field yet.
    pub fn new() -> (draft: ReplyDraft)
        ensures
            draft@ == ReplyDraftView::empty(),
    {
        ReplyDraft { name: ANONYMOUS.to_owned(), message: None }
    }

    /// Reads a text field of the form.
    pub fn text_field(&mut self, field: &str, value: &str)
        ensures
            final(self)@ == old(self)@.with_text(field@, value@),
            reply_reading_settled(field@, value@),
    {
        if same_text(field, "name") {
            if !is_blank(value) {
                self.name = trim(value);
            }
        } else if same_text(field, "message") {
            if !is_blank(value) {
                self.message = Some(value.to_owned());
            }
        }
    }

    /// Validates the draft: says why it is rejected, or that it is not.
    pub fn check(&self) -> (r: Option<Rejection>)
        ensures
            r == self@.rejection(),
    {
        if self.message.is_none() {
            Some(Rejection::MissingComment)
        } else {
            None
        }
    }

    /// Validates the draft and builds the reply to thread `thread_id`,
    /// created at the instant `now`. The store gives the post its number.
    pub fn finish(self, thread_id: i64, now: i64) -> (r: Result<Post, Rejection>)
        ensures
            match r {
                Ok(post) => self@.rejection() is None && post@ == self@.post(
                    thread_id as int,
                    now as int,
                ),
                Err(why) => self@.rejection() == Some(why),
            },
    {
        let message = match self.message {
            Some(m) => m,
            None => {
                return Err(Rejection::MissingComment);
            },
        };
        Ok(
            Post {
                id: 0,
                thread_id,
                bump_timestamp: 0,
                name: self.name,
                subject: None,
                message,
                filename: None,
                thumbname: None,
                time: time_label(now),
            },
        )
    }
}

/// How a submission ended.
#[derive(Clone, Copy, Debug, PartialEq, Eq, Structural)]
pub enum Outcome {
    /// The post was stored under this number.
    Stored(i64),
    /// The submission was turned down; nothing was stored.
    Rejected(Rejection),
    /// The store failed; nothing was stored.
    Failed(StorageError),
}

/// The posts of a board after a thread has been started with `post`, which
/// gets the number `id` and is its own thread.
pub open spec fn with_thread(posts: Seq<PostView>, post: PostView, id: int) -> Seq<PostView> {
    posts.push(PostView { id, thread_id: id, ..post })
}

/// The posts of a board after `post` has been stored under the number `id` as
/// a reply at the instant `now`: the reply is there, and the post that bears
/// the number of the reply's thread was last active at `now`.
pub open spec fn with_reply(posts: Seq<PostView>, post: PostView, id: int, now: int) -> Seq<
    PostView,
> {
    with_bump(with_post(posts, post, id), post.thread_id, now)
}

/// How the submission of a new thread ends, and what it leaves on the board:
/// a rejected draft leaves the board as it was; so does a store without free
/// numbers; otherwise the thread's first post is stored under the next number.
pub open spec fn thread_submitted(
    before: BoardView,
    draft: ThreadDraftView,
    now: int,
    outcome: Outcome,
    after: BoardView,
) -> bool {
    match draft.rejection() {
        Some(why) => outcome == Outcome::Rejected(why) && after == before,
        None => if before.next_id == i64::MAX {
            outcome == Outcome::Failed(StorageError::Exhausted) && after == before
        } else {
            &&& outcome == Outcome::Stored(before.next_id as i64)
            &&& after.next_id == before.next_id + 1
            &&& after.posts == with_thread(before.posts, draft.post(now), before.next_id)
        },
    }
}

/// How the submission of a reply ends, and what it leaves on the board: a
/// rejected draft leaves the board as it was; so does a store without free
/// numbers; otherwise the reply is stored under the next number and its
/// thread was last active at `now`.
pub open spec fn reply_submitted(
    before: BoardView,
    thread_id: int,
    draft: ReplyDraftView,
    now: int,
    outcome: Outcome,
    after: BoardView,
) -> bool {
    match draft.rejection() {
        Some(why) => outcome == Outcome::Rejected(why) && after == before,
        None => if before.next_id == i64::MAX {
            outcome == Outcome::Failed(StorageError::Exhausted) && after == before
        } else {
            &&& outcome == Outcome::Stored(before.next_id as i64)
            &&& after.next_id == before.next_id + 1
            &&& after.posts == with_reply(
                before.posts,
                draft.post(thread_id, now),
                before.next_id,
                now,
            )
        },
    }
}

/// Stores the first post of a new thread: it gets the next number and
/// becomes its own thread.
pub fn store_thread(board: &mut Board, post: Post) -> (r: Result<i64, StorageError>)
    requires
        old(board).wf(),
    ensures
        final(board).wf(),
        old(board)@.next_id < i64::MAX ==> r == Ok::<i64, StorageError>(old(board)@.next_id as i64)
            && final(board)@.next_id == old(board)@.next_id + 1 && final(board)@.posts
            == with_thread(old(board)@.posts, post@, old(board)@.next_id),
        old(board)@.next_id == i64::MAX ==> r == Err::<i64, StorageError>(StorageError::Exhausted)
            && final(board)@ == old(board)@,
{
    match board.insert_post(post) {
        Ok(id) => {
            board.set_thread_id(id, id);
            assert(board@.posts =~= with_thread(old(board)@.posts, post@, id as int));
            Ok(id)
        },
        Err(e) => Err(e),
    }
}

/// Stores a reply at the instant `now`: it gets the next number, and the
/// post that bears the number of its thread is marked as active at `now`.
pub fn store_reply(board: &mut Board, post: Post, now: i64) -> (r: Result<i64, StorageError>)
    requires
        old(board).wf(),
    ensures
        final(board).wf(),
        old(board)@.next_id < i64::MAX ==> r == Ok::<i64, StorageError>(old(board)@.next_id as i64)
            && final(board)@.next_id == old(board)@.next_id + 1 && final(board)@.posts
            == with_reply(old(board)@.posts, post@, old(board)@.next_id, now as int),
        old(board)@.next_id == i64::MAX ==> r == Err::<i64, StorageError>(StorageError::Exhausted)
            && final(board)@ == old(board)@,
{
    let thread_id = post.thread_id;
    match board.insert_post(post) {
        Ok(id) => {
            board.update_bump_timestamp(thread_id, now);
            Ok(id)
        },
        Err(e) => Err(e),
    }
}

/// How the submission of a new thread ended, and what is left to write.
pub struct Submission {
    /// How the submission ended.
    pub outcome: Outcome,
    /// The attached file, to be written by the caller.
    pub upload: Option<Upload>,
}

/// What a submission hands out for writing: the file that the draft holds
/// if the thread was stored, and nothing if the draft was rejected or the
/// store failed.
pub open spec fn handed_out(draft: ThreadDraftView, outcome: Outcome) -> Option<Upload> {
    if outcome is Stored {
        draft.upload
    } else {
        None
    }
}

/// Submits a new thread at the instant `now`: validates the draft and stores
/// the thread's first post. The file that the draft holds is handed out
/// only if the thread was stored. A caller that must have the file written
/// before the post is persisted calls [`ThreadDraft::finish`] and
/// [`store_thread`] itself.
pub fn submit_thread(board: &mut Board, draft: ThreadDraft, now: i64) -> (submission: Submission)
    requires
        old(board).wf(),
    ensures
        final(board).wf(),
        thread_submitted(old(board)@, draft@, now as int, submission.outcome, final(board)@),
        submission.upload == handed_out(draft@, submission.outcome),
{
    match draft.finish(now) {
        Err(why) => Submission { outcome: Outcome::Rejected(why), upload: None },
        Ok(accepted) => match store_thread(board, accepted.post) {
            Ok(id) => Submission { outcome: Outcome::Stored(id), upload: accepted.upload },
            Err(e) => Submission { outcome: Outcome::Failed(e), upload: None },
        },
    }
}

/// Submits a reply to thread `thread_id` at the instant `now`: validates the
/// draft, stores the reply and marks the thread as active.
pub fn submit_reply(board: &mut Board, thread_id: i64, draft: ReplyDraft, now: i64) -> (outcome:
    Outcome)
    requires
        old(board).wf(),
    ensures
        final(board).wf(),
        reply_submitted(old(board)@, thread_id as int, draft@, now as int, outcome, final(board)@),
{
    match draft.finish(thread_id, now) {
        Err(why) => Outcome::Rejected(why),
        Ok(post) => match store_reply(board, post, now) {
            Ok(id) => Outcome::Stored(id),
            Err(e) => Outcome::Failed(e),
        },
    }
}

/// The subject of the thread that welcomes visitors to a new board.
pub const WELCOME_SUBJECT: &'static str = "Welcome to /chess/";

/// The message of the thread that welcomes visitors to a new board.
pub const WELCOME_MESSAGE: &'static str = "First post! Let's discuss chess.\n>>greentext works";

/// The draft of the thread that welcomes visitors to a new board.
pub open spec fn welcome_draft_view() -> ThreadDraftView {
    ThreadDraftView {
        subject: Some(WELCOME_SUBJECT@),
        message: Some(WELCOME_MESSAGE@),
        ..ThreadDraftView::empty()
    }
}

/// Drafts the thread that welcomes visitors to a new board.
pub fn welcome_draft() -> (draft: ThreadDraft)
    ensures
        draft@ == welcome_draft_view(),
        draft@.rejection() is None,
{
    ThreadDraft {
        name: ANONYMOUS.to_owned(),
        subject: Some(WELCOME_SUBJECT.to_owned()),
        message: Some(WELCOME_MESSAGE.to_owned()),
        filename: None,
        thumbname: None,
        invalid_file: false,
        upload: None,
    }
}

/// Starts the welcome thread on a board at the instant `now`.
pub fn seed_board(board: &mut Board, now: i64) -> (outcome: Outcome)
    requires
        old(board).wf(),
    ensures
        final(board).wf(),
        thread_submitted(old(board)@, welcome_draft_view(), now as int, outcome, final(board)@),
        !(outcome is Rejected),
{
    submit_thread(board, welcome_draft(), now).outcome
}

/// The page shown when the store fails.
pub const STORAGE_ERROR_PAGE: &'static str = "<h1>Error: the post could not be stored</h1>";

/// What introduces the reason of a rejection in an address.
pub const ERROR_QUERY: &'static str = "?error=";

/// Where the poster is sent after submitting a new thread: to the index when
/// the thread was stored; back to the index with the reason when it was
/// rejected. When the store failed there is nowhere to send the poster: the
/// failure is shown instead.
pub open spec fn thread_redirect(outcome: Outcome) -> Option<Seq<char>> {
    match outcome {
        Outcome::Stored(_) => Some(INDEX_PATH@),
        Outcome::Rejected(why) => Some(INDEX_PATH@ + ERROR_QUERY@ + why.query_text()),
        Outcome::Failed(_) => None,
    }
}

/// Where the poster is sent after submitting a reply to thread `thread_id`:
/// to the thread when the reply was stored; back to the thread with the
/// reason when it was rejected. When the store failed the failure is shown
/// instead.
pub open spec fn reply_redirect(thread_id: int, outcome: Outcome) -> Option<Seq<char>> {
    match outcome {
        Outcome::Stored(_) => Some(thread_path(thread_id)),
        Outcome::Rejected(why) => Some(thread_path(thread_id) + ERROR_QUERY@ + why.query_text()),
        Outcome::Failed(_) => None,
    }
}

/// Finds where to send the poster after submitting a new thread.
pub fn redirect_after_thread(outcome: Outcome) -> (target: Option<String>)
    ensures
        opt_text(target) == thread_redirect(outcome),
{
    match outcome {
        Outcome::Stored(_) => Some(INDEX_PATH.to_owned()),
        Outcome::Rejected(why) => {
            let mut target = INDEX_PATH.to_owned();
            target.append(ERROR_QUERY);
            target.append(why.query_value().as_str());
            Some(target)
        },
        Outcome::Failed(_) => None,
    }
}

/// Finds where to send the poster after submitting a reply.
pub fn redirect_after_reply(thread_id: i64, outcome: Outcome) -> (target: Option<String>)
    ensures
        opt_text(target) == reply_redirect(thread_id as int, outcome),
{
    match outcome {
        Outcome::Stored(_) => Some(thread_address(thread_id)),
        Outcome::Rejected(why) => {
            let mut target = thread_address(thread_id);
            target.append(ERROR_QUERY);
            target.append(why.query_value().as_str());
            Some(target)
        },
        Outcome::Failed(_) => None,
    }
}

} // verus!
