//! The board kept as a journal: a flat list of entries, newest first, that is
//! either spliced into one stored document or rendered into a template.
//!
//! Here the text of an entry is escaped by the `html_escape` crate.

use crate::clock::{format_label, label_of, TIME_FORMAT_SECONDS};
use crate::diagram::{diagram_of, render_fen};
use crate::model::{normalize_name, normalized_name, opt_text, ANONYMOUS};
use crate::text::{
    blank, blank_settled, chars_of, find_last, insert_at, inserted, is_blank, last_occurrence,
    name_settled, replace_all, replaced, same_text,
};
use vstd::prelude::*;
use vstd::string::StringExecFns;

verus! {

/// The page shown when a submission has no message.
pub const MESSAGE_EMPTY_PAGE: &'static str =
    "<h1><a href=\"/\">Message empty - Click here to return</a></h1>";

/// The page shown when the stored document has no place for a new entry.
pub const INVALID_STRUCTURE_PAGE: &'static str = "<h1>Error: Invalid HTML structure</h1>";

/// The page shown when an attached image is too large.
pub const FILE_TOO_LARGE_PAGE: &'static str = "<h1>File too large (max 5MB)</h1>";

/// The page shown when the stored document cannot be read.
pub const LOAD_ERROR_PAGE: &'static str = "<h1>Error loading page</h1>";

/// Where the entries go in a template.
pub const POSTS_MARKER: &'static str = "<!-- POSTS -->";

/// The end of a stored document that closes with a rule.
pub const RULE_BODY_END: &'static str = "<hr></body>";

/// The end of a stored document.
pub const BODY_END: &'static str = "</body>";

/// The end of the posting form in a stored document.
pub const FORM_END: &'static str = "</form>";

/// What stands for one character of user text after safe encoding: the
/// characters `&`, `<`, `>`, `"`, `'` and `/` become entities, every other
/// character stands for itself.
pub open spec fn safe_char(c: char) -> Seq<char> {
    if c == '&' {
        "&amp;"@
    } else if c == '<' {
        "&lt;"@
    } else if c == '>' {
        "&gt;"@
    } else if c == '"' {
        "&quot;"@
    } else if c == '\'' {
        "&#x27;"@
    } else if c == '/' {
        "&#x2F;"@
    } else {
        seq![c]
    }
}

/// User text after safe encoding: each character replaced by
/// [`safe_char`], in order.
pub open spec fn encoded_safe(s: Seq<char>) -> Seq<char>
    decreases s.len(),
{
    if s.len() == 0 {
        Seq::empty()
    } else {
        encoded_safe(s.drop_last()) + safe_char(s.last())
    }
}

/// Calls `encode_safe` of the `html_escape` crate.
///
/// Trusted: the text comes back with each of the characters `&`, `<`, `>`,
/// `"`, `'` and `/` replaced by its entity and every other character kept.
#[verifier::external_body]
fn encode_safe(text: &str) -> (r: String)
    ensures
        r@ == encoded_safe(text@),
{
    html_escape::encode_safe(text).into_owned()
}

/// A text with every line feed replaced by a line break.
pub open spec fn with_breaks(s: Seq<char>) -> Seq<char> {
    replaced(s, "\n"@, "<br>"@)
}

/// A message as it stands in an entry: safely encoded, with a line break in
/// place of every line feed.
pub fn encode_message(message: &str) -> (r: String)
    ensures
        r@ == with_breaks(encoded_safe(message@)),
{
    let safe = encode_safe(message);
    replace_all(safe.as_str(), "\n", "<br>")
}

/// One entry of the journal.
pub struct Entry {
    pub name: String,
    pub subject: String,
    pub message: String,
    /// When the entry was made, as readers see it.
    pub date: String,
    /// A chess position in Forsyth-Edwards notation to show with the entry.
    pub fen: Option<String>,
    /// The address of the attached image.
    pub file_url: Option<String>,
}

/// What an [`Entry`] holds, as mathematical values.
pub struct EntryView {
    pub name: Seq<char>,
    pub subject: Seq<char>,
    pub message: Seq<char>,
    pub date: Seq<char>,
    pub fen: Option<Seq<char>>,
    pub file_url: Option<Seq<char>>,
}

impl View for Entry {
    type V = EntryView;

    open spec fn view(&self) -> EntryView {
        EntryView {
            name: self.name@,
            subject: self.subject@,
            message: self.message@,
            date: self.date@,
            fen: opt_text(self.fen),
            file_url: opt_text(self.file_url),
        }
    }
}

/// The image of an entry, shown when the entry has one.
pub open spec fn image_markup(file_url: Option<Seq<char>>) -> Seq<char> {
    match file_url {
        Some(url) => "<img src=\""@ + url + "\" alt=\"Uploaded image\" /><br>"@,
        None => Seq::empty(),
    }
}

/// The chess diagram of an entry, shown when the entry has a position that
/// can be read.
pub open spec fn position_markup(fen: Option<Seq<char>>) -> Seq<char> {
    match fen {
        Some(text) => match diagram_of(text) {
            Some(diagram) => "<div class=\"diagram\">"@ + diagram + "</div><br>"@,
            None => Seq::empty(),
        },
        None => Seq::empty(),
    }
}

/// The name and the subject of an entry, each safely encoded.
pub open spec fn heading_markup(entry: EntryView) -> Seq<char> {
    "<table class=\"post-table\"><tr><td class=\"post\"><div class=\"name\"><b>"@ + encoded_safe(
        entry.name,
    ) + "</b></div><div class=\"subject\"><b>"@ + encoded_safe(entry.subject) + "</b></div>"@
}

/// The message of an entry and the end of its table.
pub open spec fn closing_markup(entry: EntryView) -> Seq<char> {
    "<div class=\"message\">"@ + with_breaks(encoded_safe(entry.message)) + "</div></td></tr></table>"@
}

/// An entry with its date: a rule, then name, subject and date, the image,
/// the diagram, and the message.
pub open spec fn entry_markup(entry: EntryView) -> Seq<char> {
    "<hr>"@ + heading_markup(entry) + "<div class=\"date\">"@ + encoded_safe(entry.date)
        + "</div>"@ + image_markup(entry.file_url) + position_markup(entry.fen) + closing_markup(
        entry,
    )
}

/// An entry without date or diagram: name and subject, the image, the
/// message, and a rule after it.
pub open spec fn plain_entry_markup(entry: EntryView) -> Seq<char> {
    heading_markup(entry) + image_markup(entry.file_url) + closing_markup(entry) + "<hr>"@
}

/// The entries of a journal, the last of them first.
pub open spec fn entries_markup(entries: Seq<EntryView>) -> Seq<char>
    decreases entries.len(),
{
    if entries.len() == 0 {
        Seq::empty()
    } else {
        entry_markup(entries.last()) + entries_markup(entries.drop_last())
    }
}

/// What a sequence of entries holds, as mathematical values.
pub open spec fn entry_views(entries: Seq<Entry>) -> Seq<EntryView> {
    Seq::new(entries.len(), |i: int| entries[i]@)
}

fn push_heading(out: &mut String, entry: &Entry)
    ensures
        final(out)@ == old(out)@ + heading_markup(entry@),
{
    let name = encode_safe(entry.name.as_str());
    let subject = encode_safe(entry.subject.as_str());
    out.append("<table class=\"post-table\"><tr><td class=\"post\"><div class=\"name\"><b>");
    out.append(name.as_str());
    out.append("</b></div><div class=\"subject\"><b>");
    out.append(subject.as_str());
    out.append("</b></div>");
    assert(out@ =~= old(out)@ + heading_markup(entry@));
}

fn push_image(out: &mut String, file_url: &Option<String>)
    ensures
        final(out)@ == old(out)@ + image_markup(opt_text(*file_url)),
{
    match file_url {
        Some(url) => {
            out.append("<img src=\"");
            out.append(url.as_str());
            out.append("\" alt=\"Uploaded image\" /><br>");
        },
        None => {},
    }
    assert(out@ =~= old(out)@ + image_markup(opt_text(*file_url)));
}

fn push_position(out: &mut String, fen: &Option<String>)
    ensures
        final(out)@ == old(out)@ + position_markup(opt_text(*fen)),
{
    match fen {
        Some(text) => {
            match render_fen(text.as_str()) {
                Some(diagram) => {
                    out.append("<div class=\"diagram\">");
                    out.append(diagram.as_str());
                    out.append("</div><br>");
                },
                None => {},
            }
        },
        None => {},
    }
    assert(out@ =~= old(out)@ + position_markup(opt_text(*fen)));
}

fn push_closing(out: &mut String, entry: &Entry)
    ensures
        final(out)@ == old(out)@ + closing_markup(entry@),
{
    let message = encode_message(entry.message.as_str());
    out.append("<div class=\"message\">");
    out.append(message.as_str());
    out.append("</div></td></tr></table>");
    assert(out@ =~= old(out)@ + closing_markup(entry@));
}

fn push_entry(out: &mut String, entry: &Entry)
    ensures
        final(out)@ == old(out)@ + entry_markup(entry@),
{
    let date = encode_safe(entry.date.as_str());
    out.append("<hr>");
    push_heading(out, entry);
    out.append("<div class=\"date\">");
    out.append(date.as_str());
    out.append("</div>");
    push_image(out, &entry.file_url);
    push_position(out, &entry.fen);
    push_closing(out, entry);
    assert(out@ =~= old(out)@ + entry_markup(entry@));
}

/// Renders an entry with its date and, if it has a position, its diagram.
pub fn render_entry(entry: &Entry) -> (html: String)
    ensures
        html@ == entry_markup(entry@),
{
    let mut html = String::new();
    push_entry(&mut html, entry);
    html
}

/// Renders an entry without date or diagram.
pub fn render_plain_entry(entry: &Entry) -> (html: String)
    ensures
        html@ == plain_entry_markup(entry@),
{
    let mut html = String::new();
    push_heading(&mut html, entry);
    push_image(&mut html, &entry.file_url);
    push_closing(&mut html, entry);
    html.append("<hr>");
    assert(html@ =~= plain_entry_markup(entry@));
    html
}

/// Renders the entries of a journal, given oldest first, newest first.
pub fn render_entries(entries: &Vec<Entry>) -> (html: String)
    ensures
        html@ == entries_markup(entry_views(entries@)),
{
    let ghost all = entry_views(entries@);
    let mut html = String::new();
    let mut i: usize = entries.len();
    assert(all.take(i as int) =~= all);
    assert(html@ + entries_markup(all.take(i as int)) =~= entries_markup(all));
    while i > 0
        invariant
            i <= entries.len(),
            all == entry_views(entries@),
            entries_markup(all) == html@ + entries_markup(all.take(i as int)),
        decreases i,
    {
        let ghost before = html@;
        let ghost upto = all.take(i as int);
        i -= 1;
        push_entry(&mut html, &entries[i]);
        proof {
            assert(upto.drop_last() =~= all.take(i as int));
            assert(upto.last() == entries@[i as int]@);
            assert(before + (entry_markup(upto.last()) + entries_markup(all.take(i as int)))
                =~= html@ + entries_markup(all.take(i as int)));
        }
    }
    assert(html@ + Seq::<char>::empty() =~= html@);
    html
}

/// Puts the rendered entries into a template, at every place that the
/// template marks for them.
pub fn fill_template(template: &str, entries_html: &str) -> (html: String)
    ensures
        html@ == replaced(template@, POSTS_MARKER@, entries_html@),
{
    replace_all(template, POSTS_MARKER, entries_html)
}

/// A stored document with one more entry before its end: before the last
/// rule that closes the body, or else before the last end of the body. A
/// document with neither has no place for an entry.
pub open spec fn with_entry_at_end(document: Seq<char>, entry: Seq<char>) -> Option<Seq<char>> {
    match last_occurrence(document, RULE_BODY_END@) {
        Some(at) => Some(inserted(document, at, entry)),
        None => match last_occurrence(document, BODY_END@) {
            Some(at) => Some(inserted(document, at, entry)),
            None => None,
        },
    }
}

/// A stored document with one more entry after its posting form: directly
/// after the last end of a form. A document without a form has no place for
/// an entry.
pub open spec fn with_entry_after_form(document: Seq<char>, entry: Seq<char>) -> Option<Seq<char>> {
    match last_occurrence(document, FORM_END@) {
        Some(at) => Some(inserted(document, at + FORM_END@.len(), entry)),
        None => None,
    }
}

/// Puts an entry into a stored document before its end, so that it stands
/// below all entries made before.
pub fn insert_at_end(document: &str, entry: &str) -> (r: Option<String>)
    ensures
        opt_text(r) == with_entry_at_end(document@, entry@),
{
    let text = chars_of(document);
    let rule_end = chars_of(RULE_BODY_END);
    match find_last(&text, &rule_end) {
        Some(at) => Some(insert_at(&text, at, entry)),
        None => {
            let end = chars_of(BODY_END);
            match find_last(&text, &end) {
                Some(at) => Some(insert_at(&text, at, entry)),
                None => None,
            }
        },
    }
}

/// Puts an entry into a stored document directly after its posting form, so
/// that it stands above all entries made before.
pub fn insert_after_form(document: &str, entry: &str) -> (r: Option<String>)
    ensures
        opt_text(r) == with_entry_after_form(document@, entry@),
{
    let text = chars_of(document);
    let form_end = chars_of(FORM_END);
    match find_last(&text, &form_end) {
        Some(at) => Some(insert_at(&text, at + form_end.len(), entry)),
        None => None,
    }
}

/// An entry in the making: what the fields read so far amount to.
pub struct EntryDraft {
    pub name: String,
    pub subject: String,
    pub message: String,
    pub fen: String,
    pub file_url: Option<String>,
}

/// What an [`EntryDraft`] holds, as mathematical values.
pub struct EntryDraftView {
    pub name: Seq<char>,
    pub subject: Seq<char>,
    pub message: Seq<char>,
    pub fen: Seq<char>,
    pub file_url: Option<Seq<char>>,
}

impl View for EntryDraft {
    type V = EntryDraftView;

    open spec fn view(&self) -> EntryDraftView {
        EntryDraftView {
            name: self.name@,
            subject: self.subject@,
            message: self.message@,
            fen: self.fen@,
            file_url: opt_text(self.file_url),
        }
    }
}

impl EntryDraftView {
    /// The draft before any field has been read.
    pub open spec fn empty() -> EntryDraftView {
        EntryDraftView {
            name: ANONYMOUS@,
            subject: Seq::empty(),
            message: Seq::empty(),
            fen: Seq::empty(),
            file_url: None,
        }
    }

    /// The draft after a text field has been read. The fields `name`,
    /// `subject`, `message` and `fen` count, and of each the last one read;
    /// any other field is passed over.
    pub open spec fn with_text(self, field: Seq<char>, value: Seq<char>) -> EntryDraftView {
        if field == "name"@ {
            EntryDraftView { name: normalized_name(value), ..self }
        } else if field == "subject"@ {
            EntryDraftView { subject: value, ..self }
        } else if field == "message"@ {
            EntryDraftView { message: value, ..self }
        } else if field == "fen"@ {
            EntryDraftView { fen: value, ..self }
        } else {
            self
        }
    }

    /// A draft can become an entry if its message is not blank.
    pub open spec fn acceptable(self) -> bool {
        !blank(self.message)
    }

    /// The entry that the draft becomes, made at the instant `now`. A blank
    /// position is no position.
    pub open spec fn entry(self, now: int) -> EntryView {
        EntryView {
            name: self.name,
            subject: self.subject,
            message: self.message,
            date: label_of(now, TIME_FORMAT_SECONDS@),
            fen: if blank(self.fen) {
                None
            } else {
                Some(self.fen)
            },
            file_url: self.file_url,
        }
    }
}

impl EntryDraft {
    /// A draft that has read no field yet.
    pub fn new() -> (draft: EntryDraft)
        ensures
            draft@ == EntryDraftView::empty(),
    {
        EntryDraft {
            name: ANONYMOUS.to_owned(),
            subject: String::new(),
            message: String::new(),
            fen: String::new(),
            file_url: None,
        }
    }

    /// Reads a text field of the form.
    pub fn text_field(&mut self, field: &str, value: &str)
        ensures
            final(self)@ == old(self)@.with_text(field@, value@),
            field@ == "name"@ ==> name_settled(value@),
    {
        if same_text(field, "name") {
            self.name = normalize_name(value);
        } else if same_text(field, "subject") {
            self.subject = value.to_owned();
        } else if same_text(field, "message") {
            self.message = value.to_owned();
        } else if same_text(field, "fen") {
            self.fen = value.to_owned();
        }
    }

    /// Records the address under which the attached image was kept.
    pub fn image_kept(&mut self, url: String)
        ensures
            final(self)@ == (EntryDraftView { file_url: Some(url@), ..old(self)@ }),
    {
        self.file_url = Some(url);
    }

    /// Whether the draft can become an entry.
    pub fn is_acceptable(&self) -> (ok: bool)
        ensures
            ok == self@.acceptable(),
            blank_settled(self@.message),
    {
        !is_blank(self.message.as_str())
    }

    /// Makes the entry, dated at the instant `now`. Returns `None`, for a
    /// draft whose message is blank.
    pub fn finish(self, now: i64) -> (entry: Option<Entry>)
        ensures
            match entry {
                Some(e) => self@.acceptable() && e@ == self@.entry(now as int),
                None => !self@.acceptable(),
            },
            blank_settled(self@.message),
            self@.acceptable() ==> blank_settled(self@.fen),
    {
        if is_blank(self.message.as_str()) {
            return None;
        }
        let fen = if is_blank(self.fen.as_str()) {
            None
        } else {
            Some(self.fen)
        };
        Some(
            Entry {
                name: self.name,
                subject: self.subject,
                message: self.message,
                date: format_label(now, TIME_FORMAT_SECONDS),
                fen,
                file_url: self.file_url,
            },
        )
    }
}

} // verus!
