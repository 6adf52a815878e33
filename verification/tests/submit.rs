use imageboard::pages::{board_index, thread_address};
use imageboard::store::Board;
use imageboard::submit::{
    redirect_after_reply, redirect_after_thread, seed_board, submit_reply, submit_thread,
    welcome_draft, Outcome, Rejection, ReplyDraft, TextField, ThreadDraft,
};
use imageboard::upload::{
    file_step, image_step, is_allowed_extension, is_file_field, receive_file, receive_image,
    url_of_upload, FileStep, ImageStep,
};

fn field(name: &str, value: &str) -> TextField {
    TextField { name: name.to_string(), value: value.to_string() }
}

fn draft(subject: &str, message: &str) -> ThreadDraft {
    let mut d = ThreadDraft::new();
    d.text_field("subject", subject);
    d.text_field("message", message);
    d
}

#[test]
fn new_draft_is_anonymous_and_empty() {
    let d = ThreadDraft::new();
    assert_eq!(d.name, "Anonymous");
    assert_eq!(d.subject, None);
    assert_eq!(d.message, None);
    assert_eq!(d.filename, None);
    assert_eq!(d.thumbname, None);
    assert!(!d.invalid_file);
    assert_eq!(d.check(), Some(Rejection::MissingSubjectOrComment));
}

#[test]
fn text_fields_fill_the_draft() {
    let mut d = ThreadDraft::new();
    d.text_fields(&vec![
        field("name", "  Bob "),
        field("subject", " Hello "),
        field("message", " line one\nline two \n"),
        field("other", "ignored"),
        field("post", "Post"),
    ]);
    assert_eq!(d.name, "Bob");
    assert_eq!(d.subject.as_deref(), Some(" Hello "));
    assert_eq!(d.message.as_deref(), Some(" line one\nline two \n"));
    assert_eq!(d.check(), None);
}

#[test]
fn blank_fields_leave_the_draft_as_it_was() {
    let mut d = ThreadDraft::new();
    d.text_field("name", "Bob");
    d.text_field("name", "   ");
    d.text_field("subject", "S");
    d.text_field("subject", "");
    d.text_field("message", "M");
    d.text_field("message", " \n ");
    assert_eq!(d.name, "Bob");
    assert_eq!(d.subject.as_deref(), Some("S"));
    assert_eq!(d.message.as_deref(), Some("M"));
}

#[test]
fn thread_with_empty_subject_is_rejected_and_nothing_is_stored() {
    let mut board = Board::new();
    let before = board_index(&board, 1, None);
    let outcome = submit_thread(&mut board, draft("", "a fine message"), 100).outcome;
    assert_eq!(outcome, Outcome::Rejected(Rejection::MissingSubjectOrComment));
    assert_eq!(board.len(), 0);
    assert_eq!(board_index(&board, 1, None), before);
    assert_eq!(Rejection::MissingSubjectOrComment.reason(), "Missing subject or comment");
    assert_eq!(
        redirect_after_thread(outcome).as_deref(),
        Some("/?error=Missing%20subject%20or%20comment")
    );
}

#[test]
fn thread_with_blank_subject_or_message_is_rejected() {
    let mut board = Board::new();
    assert_eq!(
        submit_thread(&mut board, draft("  \t", "m"), 1).outcome,
        Outcome::Rejected(Rejection::MissingSubjectOrComment)
    );
    assert_eq!(
        submit_thread(&mut board, draft("s", " \n"), 1).outcome,
        Outcome::Rejected(Rejection::MissingSubjectOrComment)
    );
    assert_eq!(
        submit_thread(&mut board, ThreadDraft::new(), 1).outcome,
        Outcome::Rejected(Rejection::MissingSubjectOrComment)
    );
    assert_eq!(board.len(), 0);
}

#[test]
fn thread_is_stored_as_its_own_thread() {
    let mut board = Board::new();
    let mut d = draft("Subject", "Message\n>quote");
    d.text_field("name", " Carol ");
    assert_eq!(submit_thread(&mut board, d, 1431648000).outcome, Outcome::Stored(1));
    let posts = board.list_thread(1);
    assert_eq!(posts.len(), 1);
    let p = &posts[0];
    assert_eq!(p.id, 1);
    assert_eq!(p.thread_id, 1);
    assert_eq!(p.bump_timestamp, 1431648000);
    assert_eq!(p.name, "Carol");
    assert_eq!(p.subject.as_deref(), Some("Subject"));
    assert_eq!(p.message, "Message\n>quote");
    assert_eq!(p.filename, None);
    assert_eq!(p.thumbname, None);
    assert_eq!(p.time, "2015-05-15 00:00");
    assert_eq!(redirect_after_thread(Outcome::Stored(1)).as_deref(), Some("/"));
    assert_eq!(submit_thread(&mut board, draft("b", "c"), 5).outcome, Outcome::Stored(2));
}

#[test]
fn exe_file_rejects_the_whole_submission() {
    let mut board = Board::new();
    let mut d = ThreadDraft::new();
    d.text_field("subject", "A subject");
    let step = d.file_field(Some("virus.exe"), 1000);
    assert!(matches!(step, FileStep::Discard));
    d.text_field("message", "A perfectly valid message");
    assert!(d.invalid_file);
    assert_eq!(d.check(), Some(Rejection::InvalidFileType));
    let outcome = submit_thread(&mut board, d, 7).outcome;
    assert_eq!(outcome, Outcome::Rejected(Rejection::InvalidFileType));
    assert_eq!(board.len(), 0);
    assert_eq!(
        Rejection::InvalidFileType.reason(),
        "Invalid file type. Allowed: jpg, jpeg, png, gif, webp"
    );
    assert_eq!(
        redirect_after_thread(outcome).as_deref(),
        Some("/?error=Invalid%20file%20type.%20Allowed:%20jpg,%20jpeg,%20png,%20gif,%20webp")
    );
}

#[test]
fn unaccepted_file_outweighs_a_missing_subject() {
    let mut d = ThreadDraft::new();
    d.file_field(Some("notes.txt"), 10);
    assert_eq!(d.check(), Some(Rejection::InvalidFileType));
    let mut d = ThreadDraft::new();
    d.file_field(Some("no_extension"), 10);
    assert_eq!(d.check(), Some(Rejection::InvalidFileType));
}

#[test]
fn file_field_without_a_file_changes_nothing() {
    let mut d = draft("s", "m");
    assert!(matches!(d.file_field(None, 0), FileStep::Ignore));
    assert!(matches!(d.file_field(Some(""), 0), FileStep::Ignore));
    assert!(matches!(d.file_field(Some(""), 50), FileStep::Ignore));
    assert!(matches!(d.file_field(Some("empty.png"), 0), FileStep::Ignore));
    assert!(!d.invalid_file);
    assert_eq!(d.check(), None);
}

#[test]
fn accepted_file_is_kept_under_a_fresh_name() {
    let mut d = draft("s", "m");
    let step = d.file_field(Some("Holiday Photo.PNG"), 2048);
    let (stored_name, thumb_name) = match step {
        FileStep::Store { stored_name, thumb_name } => (stored_name, thumb_name),
        _ => panic!("the file should be kept"),
    };
    assert_eq!(stored_name.len(), 40);
    assert!(stored_name.ends_with(".png"));
    assert_eq!(thumb_name.len(), 46);
    assert!(thumb_name.ends_with("_thumb.jpg"));
    assert_eq!(stored_name[..36], thumb_name[..36]);
    assert!(stored_name[..36].chars().all(|c| c == '-' || c.is_ascii_digit() || ('a'..='f').contains(&c)));
    assert!(!d.invalid_file);
    assert_eq!(d.filename, None);
    d.attachment_stored(stored_name.clone(), thumb_name.clone(), true);
    assert_eq!(d.filename.as_deref(), Some(stored_name.as_str()));
    assert_eq!(d.thumbname.as_deref(), Some(thumb_name.as_str()));
    let mut board = Board::new();
    assert_eq!(submit_thread(&mut board, d, 0).outcome, Outcome::Stored(1));
    let p = &board.list_thread(1)[0];
    assert_eq!(p.filename.as_deref(), Some(stored_name.as_str()));
    assert_eq!(p.thumbname.as_deref(), Some(thumb_name.as_str()));
}

#[test]
fn file_that_is_no_image_is_kept_without_thumbnail() {
    let mut d = draft("s", "m");
    d.attachment_stored("t.gif".to_string(), "t_thumb.jpg".to_string(), false);
    assert_eq!(d.filename.as_deref(), Some("t.gif"));
    assert_eq!(d.thumbname, None);
    assert_eq!(d.check(), None);
}

#[test]
fn two_files_get_different_names() {
    let a = receive_file(Some("a.jpg"), 1);
    let b = receive_file(Some("a.jpg"), 1);
    match (a, b) {
        (FileStep::Store { stored_name: x, .. }, FileStep::Store { stored_name: y, .. }) => {
            assert_ne!(x, y)
        }
        _ => panic!("both files should be kept"),
    }
}

#[test]
fn extensions_are_compared_in_lower_case() {
    for ext in ["jpg", "jpeg", "png", "gif", "webp"] {
        assert!(is_allowed_extension(ext));
    }
    for ext in ["exe", "", "JPG", "jpg ", "svg", "bmp", "jp"] {
        assert!(!is_allowed_extension(ext));
    }
    for name in ["a.JPG", "a.Jpeg", "a.pNg", "a.GIF", "a.WebP", "archive.tar.png", ".hidden.gif"] {
        assert!(matches!(receive_file(Some(name), 1), FileStep::Store { .. }), "{}", name);
    }
    for name in ["a.exe", "a", "a.", ".png", "a.png.exe", "png", "a.jp"] {
        assert!(matches!(receive_file(Some(name), 1), FileStep::Discard), "{}", name);
    }
}

#[test]
fn file_steps() {
    assert!(matches!(file_step(None, "png", 5, "tok"), FileStep::Ignore));
    assert!(matches!(file_step(Some(""), "png", 5, "tok"), FileStep::Ignore));
    assert!(matches!(file_step(Some("a.exe"), "exe", 5, "tok"), FileStep::Discard));
    assert!(matches!(file_step(Some("a.exe"), "exe", 0, "tok"), FileStep::Discard));
    assert!(matches!(file_step(Some("a.png"), "png", 0, "tok"), FileStep::Ignore));
    match file_step(Some("a.PNG"), "PNG", 5, "tok") {
        FileStep::Store { stored_name, thumb_name } => {
            assert_eq!(stored_name, "tok.png");
            assert_eq!(thumb_name, "tok_thumb.jpg");
        }
        _ => panic!("the file should be kept"),
    }
}

#[test]
fn image_steps() {
    assert!(matches!(image_step(None, "image/png", 5, "png", "tok"), ImageStep::Skip));
    assert!(matches!(image_step(Some(""), "image/png", 5, "png", "tok"), ImageStep::Skip));
    assert!(matches!(image_step(Some("a.png"), "text/plain", 5, "png", "tok"), ImageStep::Skip));
    assert!(matches!(image_step(Some("a.png"), "", 5, "png", "tok"), ImageStep::Skip));
    assert!(matches!(
        image_step(Some("a.png"), "image/png", 5 * 1024 * 1024 + 1, "png", "tok"),
        ImageStep::TooLarge
    ));
    assert!(matches!(image_step(Some("a"), "image/png", 5, "", "tok"), ImageStep::Skip));
    match image_step(Some("a.PNG"), "image/png", 5 * 1024 * 1024, "PNG", "tok") {
        ImageStep::Keep { stored_name } => assert_eq!(stored_name, "tok.PNG"),
        _ => panic!("the image should be kept"),
    }
    assert_eq!(url_of_upload("tok.PNG"), "/static/uploads/tok.PNG");
}

#[test]
fn received_images() {
    assert!(matches!(receive_image(None, "image/png", 5), ImageStep::Skip));
    assert!(matches!(receive_image(Some("a.txt"), "text/plain", 5), ImageStep::Skip));
    assert!(matches!(receive_image(Some("noext"), "image/png", 5), ImageStep::Skip));
    assert!(matches!(receive_image(Some("a.png"), "image/png", 6000000), ImageStep::TooLarge));
    match receive_image(Some("a.png"), "image/png", 5) {
        ImageStep::Keep { stored_name } => {
            assert_eq!(stored_name.len(), 40);
            assert!(stored_name.ends_with(".png"));
        }
        _ => panic!("the image should be kept"),
    }
}

#[test]
fn reply_without_a_message_is_rejected() {
    let mut board = Board::new();
    submit_thread(&mut board, draft("s", "m"), 10).outcome;
    let mut d = ReplyDraft::new();
    d.text_field("name", "Dave");
    d.text_field("message", "   ");
    assert_eq!(d.check(), Some(Rejection::MissingComment));
    let outcome = submit_reply(&mut board, 1, d, 20);
    assert_eq!(outcome, Outcome::Rejected(Rejection::MissingComment));
    assert_eq!(board.len(), 1);
    assert_eq!(board.list_thread_starts(1, 0)[0].bump_timestamp, 10);
    assert_eq!(Rejection::MissingComment.reason(), "Missing comment");
    assert_eq!(
        redirect_after_reply(1, outcome).as_deref(),
        Some("/thread/1?error=Missing%20comment")
    );
}

#[test]
fn reply_ignores_subject_and_file_fields() {
    let mut d = ReplyDraft::new();
    d.text_fields(&vec![field("subject", "S"), field("message", "M"), field("file", "x")]);
    assert_eq!(d.name, "Anonymous");
    assert_eq!(d.message.as_deref(), Some("M"));
}

#[test]
fn reply_bumps_its_thread_to_the_time_of_the_reply() {
    let mut board = Board::new();
    submit_thread(&mut board, draft("first", "m"), 100).outcome;
    submit_thread(&mut board, draft("second", "m"), 200).outcome;
    let mut d = ReplyDraft::new();
    d.text_field("message", "well formed");
    let now = 1431648060;
    assert_eq!(submit_reply(&mut board, 1, d, now), Outcome::Stored(3));
    let starts = board.list_thread_starts(15, 0);
    assert_eq!(starts[0].id, 1);
    assert_eq!(starts[0].bump_timestamp, now);
    assert_eq!(starts[1].id, 2);
    let reply = &board.list_thread(1)[1];
    assert_eq!(reply.id, 3);
    assert_eq!(reply.thread_id, 1);
    assert_eq!(reply.bump_timestamp, 0);
    assert_eq!(reply.subject, None);
    assert_eq!(reply.message, "well formed");
    assert_eq!(reply.time, "2015-05-15 00:01");
    assert_eq!(redirect_after_reply(1, Outcome::Stored(3)).as_deref(), Some("/thread/1"));
    assert_eq!(thread_address(1), "/thread/1");
}

#[test]
fn submission_to_a_full_store_fails_and_stores_nothing() {
    let last = imageboard::model::Post {
        id: i64::MAX - 1,
        thread_id: i64::MAX - 1,
        bump_timestamp: 0,
        name: "Anonymous".to_string(),
        subject: None,
        message: "m".to_string(),
        filename: None,
        thumbname: None,
        time: String::new(),
    };
    let mut board = Board::from_posts(vec![last]).unwrap();
    let failed = Outcome::Failed(imageboard::store::StorageError::Exhausted);
    assert_eq!(submit_thread(&mut board, draft("s", "m"), 9).outcome, failed);
    let mut d = ReplyDraft::new();
    d.text_field("message", "m");
    assert_eq!(submit_reply(&mut board, i64::MAX - 1, d, 9), failed);
    assert_eq!(board.len(), 1);
    assert_eq!(board.list_thread_starts(15, 0)[0].bump_timestamp, 0);
}

#[test]
fn finished_drafts_become_posts() {
    let accepted = draft("S", "M").finish(60).unwrap();
    assert!(accepted.upload.is_none());
    let post = accepted.post;
    assert_eq!((post.id, post.thread_id, post.bump_timestamp), (0, 0, 60));
    assert_eq!(post.time, "1970-01-01 00:01");
    assert_eq!(draft("", "M").finish(60).err(), Some(Rejection::MissingSubjectOrComment));
    assert_eq!(draft("S", "").finish(60).err(), Some(Rejection::MissingSubjectOrComment));
    let mut bad = draft("S", "M");
    bad.file_field(Some("a.exe"), 1);
    assert_eq!(bad.finish(60).err(), Some(Rejection::InvalidFileType));
    let mut reply = ReplyDraft::new();
    assert_eq!(ReplyDraft::new().finish(4, 60).err(), Some(Rejection::MissingComment));
    reply.text_field("message", "r");
    let post = reply.finish(4, 60).unwrap();
    assert_eq!((post.id, post.thread_id, post.bump_timestamp), (0, 4, 0));
    assert_eq!(post.name, "Anonymous");
}

#[test]
fn reasons_are_encoded_for_addresses() {
    assert_eq!(
        Rejection::InvalidFileType.query_value(),
        "Invalid%20file%20type.%20Allowed:%20jpg,%20jpeg,%20png,%20gif,%20webp"
    );
    assert_eq!(Rejection::MissingSubjectOrComment.query_value(), "Missing%20subject%20or%20comment");
    assert_eq!(Rejection::MissingComment.query_value(), "Missing%20comment");
}

#[test]
fn failed_store_has_no_redirect() {
    let failed = Outcome::Failed(imageboard::store::StorageError::Exhausted);
    assert_eq!(redirect_after_thread(failed), None);
    assert_eq!(redirect_after_reply(3, failed), None);
}

#[test]
fn welcome_thread() {
    let d = welcome_draft();
    assert_eq!(d.name, "Anonymous");
    assert_eq!(d.subject.as_deref(), Some("Welcome to /chess/"));
    assert_eq!(d.message.as_deref(), Some("First post! Let's discuss chess.\n>>greentext works"));
    let mut board = Board::new();
    assert_eq!(seed_board(&mut board, 0), Outcome::Stored(1));
    let p = &board.list_thread_starts(15, 0)[0];
    assert_eq!(p.thread_id, 1);
    assert_eq!(p.time, "1970-01-01 00:00");
}

const TINY_PNG: [u8; 90] = [137, 80, 78, 71, 13, 10, 26, 10, 0, 0, 0, 13, 73, 72, 68, 82, 0, 0, 0, 4, 0, 0, 0, 2, 8, 2, 0, 0, 0, 240, 202, 234, 52, 0, 0, 0, 33, 73, 68, 65, 84, 120, 156, 5, 193, 129, 0, 0, 0, 12, 195, 176, 130, 29, 103, 16, 3, 27, 68, 177, 158, 0, 30, 22, 135, 16, 47, 54, 46, 62, 117, 154, 10, 161, 205, 72, 91, 51, 0, 0, 0, 0, 73, 69, 78, 68, 174, 66, 96, 130];

#[test]
fn attached_image_gets_a_thumbnail() {
    let mut d = draft("s", "m");
    d.attach(Some("tiny.png"), &TINY_PNG);
    let stored_name = d.filename.clone().unwrap();
    let thumb_name = d.thumbname.clone().unwrap();
    assert_eq!(stored_name.len(), 40);
    assert!(stored_name.ends_with(".png"));
    assert_eq!(thumb_name, format!("{}_thumb.jpg", &stored_name[..36]));
    assert_eq!(d.check(), None);
    let accepted = d.finish(0).unwrap();
    assert_eq!(accepted.post.filename.as_deref(), Some(stored_name.as_str()));
    assert_eq!(accepted.post.thumbname.as_deref(), Some(thumb_name.as_str()));
    let upload = accepted.upload.unwrap();
    assert_eq!(upload.stored_name, stored_name);
    assert_eq!(upload.thumb_name, thumb_name);
    assert_eq!(upload.content, TINY_PNG.to_vec());
    let thumbnail = upload.thumbnail.unwrap();
    assert_eq!((thumbnail.width, thumbnail.height), (150, 75));
    let decoded = image::load_from_memory(&thumbnail.bytes).unwrap();
    assert_eq!((decoded.width(), decoded.height()), (150, 75));
    assert_eq!(thumbnail.bytes[..2], [0xff, 0xd8]);
    assert_eq!(thumbnail.bytes[thumbnail.bytes.len() - 2..], [0xff, 0xd9]);
}

#[test]
fn attached_file_that_is_no_image_is_kept_without_thumbnail() {
    let mut d = draft("s", "m");
    d.attach(Some("fake.jpg"), b"this is not an image");
    let stored_name = d.filename.clone().unwrap();
    assert!(stored_name.ends_with(".jpg"));
    assert_eq!(d.thumbname, None);
    assert_eq!(d.check(), None);
    let mut board = Board::new();
    let submission = submit_thread(&mut board, d, 0);
    assert_eq!(submission.outcome, Outcome::Stored(1));
    let upload = submission.upload.unwrap();
    assert_eq!(upload.stored_name, stored_name);
    assert_eq!(upload.content, b"this is not an image".to_vec());
    assert!(upload.thumbnail.is_none());
    let p = &board.list_thread(1)[0];
    assert_eq!(p.filename.as_deref(), Some(stored_name.as_str()));
    assert_eq!(p.thumbname, None);
}

#[test]
fn attached_file_of_another_kind_is_discarded() {
    let mut d = draft("s", "m");
    d.attach(Some("tiny.exe"), &TINY_PNG);
    assert!(d.invalid_file);
    assert_eq!(d.filename, None);
    assert!(d.upload.is_none());
    assert_eq!(d.check(), Some(Rejection::InvalidFileType));
}

#[test]
fn picture_with_blank_subject_is_rejected_and_nothing_is_handed_out() {
    let mut d = ThreadDraft::new();
    d.text_field("subject", "   ");
    d.attach(Some("a.png"), &TINY_PNG);
    d.text_field("message", "a fine message");
    assert!(d.upload.is_some());
    assert_eq!(d.finish(5).err(), Some(Rejection::MissingSubjectOrComment));
    let mut d = ThreadDraft::new();
    d.attach(Some("a.png"), &TINY_PNG);
    d.text_field("message", "a fine message");
    let mut board = Board::new();
    let submission = submit_thread(&mut board, d, 5);
    assert_eq!(submission.outcome, Outcome::Rejected(Rejection::MissingSubjectOrComment));
    assert!(submission.upload.is_none());
    assert_eq!(board.len(), 0);
}

#[test]
fn picture_after_an_unaccepted_file_is_not_handed_out() {
    let mut d = draft("s", "m");
    d.attach(Some("bad.exe"), b"x");
    d.attach(Some("good.png"), &TINY_PNG);
    assert_eq!(d.finish(5).err(), Some(Rejection::InvalidFileType));
}

#[test]
fn file_is_not_handed_out_when_the_store_fails() {
    let last = imageboard::model::Post {
        id: i64::MAX - 1,
        thread_id: i64::MAX - 1,
        bump_timestamp: 0,
        name: "Anonymous".to_string(),
        subject: None,
        message: "m".to_string(),
        filename: None,
        thumbname: None,
        time: String::new(),
    };
    let mut board = Board::from_posts(vec![last]).unwrap();
    let mut d = draft("s", "m");
    d.attach(Some("a.png"), &TINY_PNG);
    let submission = submit_thread(&mut board, d, 5);
    assert_eq!(
        submission.outcome,
        Outcome::Failed(imageboard::store::StorageError::Exhausted)
    );
    assert!(submission.upload.is_none());
}

#[test]
fn last_file_attached_is_the_one_kept() {
    let mut d = draft("s", "m");
    d.attach(Some("one.gif"), b"first");
    d.attach(Some("two.png"), &TINY_PNG);
    d.attach(Some("three.png"), &[]);
    d.attach(None, b"zzz");
    let accepted = d.finish(0).unwrap();
    let upload = accepted.upload.unwrap();
    assert!(upload.stored_name.ends_with(".png"));
    assert_eq!(upload.content, TINY_PNG.to_vec());
    assert_eq!(accepted.post.filename.as_deref(), Some(upload.stored_name.as_str()));
}

#[test]
fn names_recorded_by_the_caller_leave_nothing_to_hand_out() {
    let mut d = draft("s", "m");
    d.attach(Some("two.png"), &TINY_PNG);
    d.attachment_stored("mine.gif".to_string(), "mine_thumb.jpg".to_string(), false);
    let accepted = d.finish(0).unwrap();
    assert!(accepted.upload.is_none());
    assert_eq!(accepted.post.filename.as_deref(), Some("mine.gif"));
}

#[test]
fn nothing_is_attached_without_file_name_or_content() {
    let mut d = draft("s", "m");
    d.attach(None, &TINY_PNG);
    d.attach(Some(""), &TINY_PNG);
    d.attach(Some("tiny.png"), &[]);
    assert!(!d.invalid_file);
    assert_eq!(d.filename, None);
    assert!(d.upload.is_none());
    assert_eq!(d.check(), None);
}

#[test]
fn extension_of_a_bare_name_is_what_follows_its_last_dot() {
    for name in ["a.png", "photo.final.JPG", "..png", ".hidden.gif", "a b.webp", "x.jpeg"] {
        assert!(matches!(receive_file(Some(name), 1), FileStep::Store { .. }), "{}", name);
    }
    for name in ["png", ".png", "a.", "...", ".", "a.png.", "a.pn g", "a.exe", "a.png.txt"] {
        assert!(matches!(receive_file(Some(name), 1), FileStep::Discard), "{}", name);
    }
    match receive_file(Some("photo.final.JPG"), 1) {
        FileStep::Store { stored_name, .. } => assert!(stored_name.ends_with(".jpg")),
        _ => panic!("the file should be kept"),
    }
    match receive_image(Some("photo.final.JPG"), "image/jpeg", 1) {
        ImageStep::Keep { stored_name } => assert!(stored_name.ends_with(".JPG")),
        _ => panic!("the image should be kept"),
    }
    assert!(matches!(receive_image(Some(".png"), "image/png", 1), ImageStep::Skip));
    assert!(matches!(receive_image(Some("a."), "image/png", 1), ImageStep::Skip));
}

#[test]
fn parts_of_a_form_are_read_by_their_names() {
    let mut d = ThreadDraft::new();
    d.part("subject", None, b"Hello", "Hello");
    d.part("message", None, b"World", "World");
    d.part("file", Some("tiny.png"), &TINY_PNG, "");
    d.part("other", Some("x.exe"), b"zz", "zz");
    assert_eq!(d.subject.as_deref(), Some("Hello"));
    assert_eq!(d.message.as_deref(), Some("World"));
    assert!(!d.invalid_file);
    assert!(d.upload.is_some());
    assert!(is_file_field("file"));
    assert!(!is_file_field("File"));
    let mut d = ThreadDraft::new();
    d.part("file", Some("x.exe"), b"zz", "zz");
    assert!(d.invalid_file);
}
