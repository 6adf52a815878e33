use imageboard::model::{is_non_empty_message, is_thread_start, is_valid_name, normalize_name, Post, Thread};
use imageboard::pages::{board_index, board_thread, index_threads, render_index, render_thread};
use imageboard::paging::{
    clamp_page, page_offset, parse_number, parse_page, preview_start, total_pages, window,
};
use imageboard::store::{Board, StorageError};
use imageboard::submit::{store_reply, store_thread};

fn post(thread_id: i64, bump: i64, message: &str) -> Post {
    Post {
        id: 0,
        thread_id,
        bump_timestamp: bump,
        name: "Anonymous".to_string(),
        subject: None,
        message: message.to_string(),
        filename: None,
        thumbname: None,
        time: "2024-01-01 00:00".to_string(),
    }
}

fn board_with_threads(n: i64) -> Board {
    let mut board = Board::new();
    for i in 1..=n {
        let id = store_thread(&mut board, post(0, 1000 + i, &format!("thread {}", i))).unwrap();
        assert_eq!(id, i);
    }
    board
}

fn ids(posts: &[Post]) -> Vec<i64> {
    posts.iter().map(|p| p.id).collect()
}

#[test]
fn names_and_messages() {
    assert!(is_valid_name("Bob"));
    assert!(!is_valid_name(""));
    assert!(!is_valid_name("  \t"));
    assert!(is_non_empty_message("hi"));
    assert!(is_non_empty_message(" \n x"));
    assert!(!is_non_empty_message(""));
    assert!(!is_non_empty_message(" \n "));
}

#[test]
fn names_are_trimmed_and_default_to_anonymous() {
    assert_eq!(normalize_name("  Bob  "), "Bob");
    assert_eq!(normalize_name(""), "Anonymous");
    assert_eq!(normalize_name("   "), "Anonymous");
    assert_eq!(normalize_name("A B"), "A B");
}

#[test]
fn thread_start_is_its_own_thread() {
    let mut p = post(5, 0, "m");
    p.id = 5;
    assert!(is_thread_start(&p));
    p.id = 6;
    assert!(!is_thread_start(&p));
}

#[test]
fn page_counts() {
    assert_eq!(total_pages(0), 1);
    assert_eq!(total_pages(1), 1);
    assert_eq!(total_pages(15), 1);
    assert_eq!(total_pages(16), 2);
    assert_eq!(total_pages(30), 2);
    assert_eq!(total_pages(31), 3);
    assert_eq!(total_pages(u64::MAX), 1229782938247303441);
}

#[test]
fn pages_are_clamped() {
    assert_eq!(clamp_page(3, 2), 2);
    assert_eq!(clamp_page(0, 2), 1);
    assert_eq!(clamp_page(1, 2), 1);
    assert_eq!(clamp_page(2, 2), 2);
    assert_eq!(clamp_page(7, 1), 1);
}

#[test]
fn page_offsets() {
    assert_eq!(page_offset(1), 0);
    assert_eq!(page_offset(2), 15);
    assert_eq!(page_offset(4), 45);
}

#[test]
fn sixteen_threads_make_two_pages_and_page_three_is_page_two() {
    let w = window(16, 3);
    assert_eq!(w.total_pages, 2);
    assert_eq!(w.page, 2);
    assert_eq!(w.offset, 15);
    let w = window(16, 1);
    assert_eq!((w.page, w.total_pages, w.offset), (1, 2, 0));
    let w = window(0, 9);
    assert_eq!((w.page, w.total_pages, w.offset), (1, 1, 0));
}

#[test]
fn previews_begin_three_from_the_end() {
    assert_eq!(preview_start(0), 0);
    assert_eq!(preview_start(3), 0);
    assert_eq!(preview_start(4), 1);
    assert_eq!(preview_start(5), 2);
}

#[test]
fn numbers_are_read_as_the_standard_library_reads_them() {
    for s in ["0", "1", "42", "+7", "007", "18446744073709551615", "18446744073709551616", "", "+", "-1", " 1", "1 ", "1a", "++1", "\u{ff11}"] {
        assert_eq!(parse_number(s), s.parse::<u64>().ok(), "for {:?}", s);
    }
}

#[test]
fn requested_pages() {
    assert_eq!(parse_page(None), 1);
    assert_eq!(parse_page(Some("3")), 3);
    assert_eq!(parse_page(Some("0")), 1);
    assert_eq!(parse_page(Some("abc")), 1);
    assert_eq!(parse_page(Some("-2")), 1);
    assert_eq!(parse_page(Some("")), 1);
}

#[test]
fn posts_get_ascending_numbers() {
    let mut board = Board::new();
    let mut given = post(0, 5, "a");
    given.id = 77;
    assert_eq!(board.insert_post(given), Ok(1));
    assert_eq!(board.insert_post(post(1, 0, "b")), Ok(2));
    assert_eq!(board.insert_post(post(1, 0, "c")), Ok(3));
    assert_eq!(board.len(), 3);
    assert_eq!(ids(&board.list_thread(1)), vec![2, 3]);
    assert_eq!(ids(&board.list_thread(0)), vec![1]);
}

#[test]
fn thread_number_and_activity_can_be_set() {
    let mut board = Board::new();
    board.insert_post(post(0, 5, "a")).unwrap();
    board.insert_post(post(9, 0, "b")).unwrap();
    assert_eq!(board.count_thread_starts(), 0);
    board.set_thread_id(1, 1);
    assert_eq!(board.count_thread_starts(), 1);
    board.set_thread_id(42, 42);
    assert_eq!(board.count_thread_starts(), 1);
    board.update_bump_timestamp(1, 99);
    let starts = board.list_thread_starts(15, 0);
    assert_eq!(starts.len(), 1);
    assert_eq!(starts[0].bump_timestamp, 99);
    assert_eq!(starts[0].thread_id, 1);
    board.update_bump_timestamp(2, 7);
    assert_eq!(board.list_thread(9)[0].bump_timestamp, 7);
}

#[test]
fn sixteen_threads_page_one_shows_the_fifteen_most_recently_bumped() {
    let board = board_with_threads(16);
    assert_eq!(board.count_thread_starts(), 16);
    let first = index_threads(&board, 1);
    assert_eq!((first.page, first.total_pages), (1, 2));
    let shown: Vec<i64> = first.threads.iter().map(|t| t.op.id).collect();
    assert_eq!(shown, vec![16, 15, 14, 13, 12, 11, 10, 9, 8, 7, 6, 5, 4, 3, 2]);
    let second = index_threads(&board, 2);
    assert_eq!((second.page, second.total_pages), (2, 2));
    let shown: Vec<i64> = second.threads.iter().map(|t| t.op.id).collect();
    assert_eq!(shown, vec![1]);
}

#[test]
fn page_three_of_two_shows_page_two() {
    let board = board_with_threads(16);
    let shown = index_threads(&board, 3);
    assert_eq!((shown.page, shown.total_pages), (2, 2));
    assert_eq!(shown.threads.len(), 1);
    assert_eq!(shown.threads[0].op.id, 1);
    assert_eq!(board_index(&board, 3, None), board_index(&board, 2, None));
    assert_eq!(board_index(&board, 0, None), board_index(&board, 1, None));
}

#[test]
fn listing_respects_limit_and_offset() {
    let board = board_with_threads(5);
    assert_eq!(ids(&board.list_thread_starts(2, 0)), vec![5, 4]);
    assert_eq!(ids(&board.list_thread_starts(2, 3)), vec![2, 1]);
    assert_eq!(ids(&board.list_thread_starts(10, 4)), vec![1]);
    assert_eq!(ids(&board.list_thread_starts(10, 5)), Vec::<i64>::new());
    assert_eq!(ids(&board.list_thread_starts(0, 0)), Vec::<i64>::new());
    assert_eq!(ids(&board.list_thread_starts(u64::MAX, u64::MAX)), Vec::<i64>::new());
    assert_eq!(ids(&board.list_thread_starts(u64::MAX, 1)), vec![4, 3, 2, 1]);
}

#[test]
fn threads_active_at_the_same_second_list_the_later_one_first() {
    let mut board = Board::new();
    store_thread(&mut board, post(0, 50, "a")).unwrap();
    store_thread(&mut board, post(0, 70, "b")).unwrap();
    store_thread(&mut board, post(0, 50, "c")).unwrap();
    assert_eq!(ids(&board.list_thread_starts(15, 0)), vec![2, 3, 1]);
}

#[test]
fn reply_moves_its_thread_to_the_top() {
    let mut board = board_with_threads(3);
    assert_eq!(ids(&board.list_thread_starts(15, 0)), vec![3, 2, 1]);
    let id = store_reply(&mut board, post(1, 0, "bump"), 2000).unwrap();
    assert_eq!(id, 4);
    let starts = board.list_thread_starts(15, 0);
    assert_eq!(ids(&starts), vec![1, 3, 2]);
    assert_eq!(starts[0].bump_timestamp, 2000);
    assert!(starts[0].bump_timestamp >= 2000);
    let thread = board.list_thread(1);
    assert_eq!(ids(&thread), vec![1, 4]);
    assert_eq!(thread[1].bump_timestamp, 0);
    assert_eq!(board.count_thread_starts(), 3);
}

#[test]
fn reply_to_a_thread_that_is_not_there_bumps_nothing() {
    let mut board = board_with_threads(2);
    store_reply(&mut board, post(40, 0, "lost"), 5000).unwrap();
    assert_eq!(ids(&board.list_thread_starts(15, 0)), vec![2, 1]);
    assert_eq!(ids(&board.list_thread(40)), vec![3]);
    assert!(board_thread(&board, 40, None).contains("Thread not found"));
}

fn numbered(id: i64, thread_id: i64) -> Post {
    let mut p = post(thread_id, 0, "m");
    p.id = id;
    p
}

#[test]
fn stored_posts_are_taken_back_into_a_board() {
    let mut board = Board::from_posts(vec![numbered(3, 3), numbered(8, 3), numbered(9, 9)]).unwrap();
    assert_eq!(board.len(), 3);
    assert_eq!(board.count_thread_starts(), 2);
    assert_eq!(ids(&board.list_thread(3)), vec![3, 8]);
    assert_eq!(board.insert_post(post(3, 0, "next")), Ok(10));
    let mut empty = Board::from_posts(Vec::new()).unwrap();
    assert_eq!(empty.insert_post(post(0, 0, "first")), Ok(1));
}

#[test]
fn posts_out_of_order_are_not_taken_back() {
    assert!(Board::from_posts(vec![numbered(2, 2), numbered(1, 1)]).is_none());
    assert!(Board::from_posts(vec![numbered(2, 2), numbered(2, 2)]).is_none());
    assert!(Board::from_posts(vec![numbered(0, 0)]).is_none());
    assert!(Board::from_posts(vec![numbered(-5, 1)]).is_none());
    assert!(Board::from_posts(vec![numbered(i64::MAX, 1)]).is_none());
}

#[test]
fn the_store_fails_when_numbers_run_out() {
    let mut board = Board::from_posts(vec![numbered(i64::MAX - 1, 1)]).unwrap();
    assert_eq!(board.insert_post(post(1, 0, "a")), Err(StorageError::Exhausted));
    assert_eq!(store_thread(&mut board, post(0, 1, "a")), Err(StorageError::Exhausted));
    assert_eq!(store_reply(&mut board, post(1, 0, "a"), 5), Err(StorageError::Exhausted));
    assert_eq!(board.len(), 1);
    assert_eq!(board.list_thread(1)[0].bump_timestamp, 0);
}

fn thread_with_replies(n: usize) -> Thread {
    let mut op = post(1, 10, "op");
    op.id = 1;
    let mut posts = vec![op.clone()];
    for i in 0..n {
        let mut r = post(1, 0, &format!("reply {}", i + 1));
        r.id = 2 + i as i64;
        posts.push(r);
    }
    Thread::under(op, posts)
}

#[test]
fn thread_with_five_replies_shows_the_last_three_on_the_index_and_all_on_its_page() {
    let thread = thread_with_replies(5);
    assert_eq!(thread.reply_count(), 5);
    let index = render_index(&vec![thread_with_replies(5)], 1, 1, None);
    assert!(index.contains("Reply [5]"));
    assert!(!index.contains("reply 1<br>"));
    assert!(!index.contains("reply 2<br>"));
    let third = index.find("reply 3<br>").unwrap();
    let fourth = index.find("reply 4<br>").unwrap();
    let fifth = index.find("reply 5<br>").unwrap();
    assert!(third < fourth && fourth < fifth);
    assert_eq!(index.matches("class=\"post reply\"").count(), 3);
    let page = render_thread(&Some(thread), None);
    assert!(page.contains("Reply [5]"));
    assert_eq!(page.matches("class=\"post reply\"").count(), 5);
    for i in 1..=5 {
        assert!(page.contains(&format!("reply {}<br>", i)));
    }
}

#[test]
fn thread_with_three_replies_or_fewer_shows_them_all_on_the_index() {
    for n in 0..=3 {
        let index = render_index(&vec![thread_with_replies(n)], 1, 1, None);
        assert_eq!(index.matches("class=\"post reply\"").count(), n);
        assert!(index.contains(&format!("Reply [{}]", n)));
    }
}

#[test]
fn thread_is_formed_from_its_posts() {
    let mut op = post(4, 10, "op");
    op.id = 4;
    let mut r = post(4, 0, "r");
    r.id = 6;
    let t = Thread::from_posts(vec![op.clone(), r.clone()], 4).unwrap();
    assert_eq!(t.op.id, 4);
    assert_eq!(ids(&t.replies), vec![6]);
    assert!(Thread::from_posts(vec![], 4).is_none());
    assert!(Thread::from_posts(vec![r.clone(), op.clone()], 4).is_none());
    assert!(Thread::from_posts(vec![op.clone()], 5).is_none());
    let t = Thread::under(op.clone(), vec![op.clone(), r.clone()]);
    assert_eq!(ids(&t.replies), vec![6]);
    let t = Thread::under(op, vec![r]);
    assert_eq!(ids(&t.replies), vec![6]);
}

#[test]
fn unknown_thread_shows_the_not_found_page() {
    let board = board_with_threads(3);
    assert_eq!(
        board_thread(&board, 999, None),
        "<html><body>Thread not found. <a href=\"/\">Return to board</a></body></html>"
    );
    assert_eq!(
        board_thread(&Board::new(), 999, Some("x")),
        "<html><body>Thread not found. <a href=\"/\">Return to board</a></body></html>"
    );
}

#[test]
fn number_of_a_reply_is_no_thread() {
    let mut board = board_with_threads(1);
    store_reply(&mut board, post(1, 0, "r"), 1).unwrap();
    assert!(board_thread(&board, 2, None).contains("Thread not found"));
    assert!(board_thread(&board, 1, None).contains("<div id=\"2\" class=\"post reply\">"));
}

#[test]
fn thread_page_has_reply_form_and_all_posts() {
    let mut board = Board::new();
    store_thread(&mut board, post(0, 10, "hello")).unwrap();
    store_reply(&mut board, post(1, 0, ">>1 hi"), 20).unwrap();
    let page = board_thread(&board, 1, None);
    assert!(page.starts_with("<!DOCTYPE html>"));
    assert!(page.contains("<div class=\"banner\">Reply mode <a href=\"/\">Return to the main board</a></div>"));
    assert!(page.contains("action=\"/thread/1\""));
    assert!(!page.contains("name=\"subject\""));
    assert!(page.ends_with(
        "<div class=\"thread\"><div id=\"1\" class=\"post op\"><div class=\"intro\"><span class=\"name\">Anonymous</span> <a href=\"/thread/1\">Reply [1]</a></div><div class=\"body\">hello<br></div></div><div id=\"2\" class=\"post reply\"><div class=\"intro\"><span class=\"name\">Anonymous</span></div><div class=\"body\"><span class=\"quote\"><a class=\"quotelink\" href=\"#1\">&gt;&gt;1</a> hi</span><br></div></div><br></div><hr></body></html>"
    ));
}

#[test]
fn thread_page_shows_the_reason_of_a_rejection() {
    let board = board_with_threads(1);
    let page = board_thread(&board, 1, Some("Missing comment"));
    assert!(page.contains("<div class=\"banner\" style=\"background-color: #E04000; color: white;\">Error: Missing comment <a href=\"/thread/1\" style=\"color: white;\">Try again</a></div><hr>"));
}

#[test]
fn index_of_an_empty_board() {
    let page = board_index(&Board::new(), 1, None);
    assert!(page.starts_with("<!DOCTYPE html>"));
    assert!(page.contains("action=\"/\""));
    assert!(page.contains("name=\"subject\""));
    assert!(page.ends_with("</form>\n<hr></body></html>"));
}

#[test]
fn index_shows_threads_navigation_and_reason() {
    let board = board_with_threads(16);
    let page = board_index(&board, 1, Some("<bad>"));
    assert!(page.contains("<div class=\"banner\" style=\"background-color: #E04000; color: white;\">Error: &lt;bad&gt; <a href=\"/\" style=\"color: white;\">Try again</a></div><hr>"));
    assert_eq!(page.matches("<div class=\"thread\">").count(), 15);
    assert!(page.ends_with("<div class=\"pagination\"><span class=\"current\">1</span><a href=\"/?page=2\">2</a><a href=\"/?page=2\">Next \u{bb}</a></div></body></html>"));
    let first = page.find("thread 16<br>").unwrap();
    let last = page.find("thread 2<br>").unwrap();
    assert!(first < last);
    assert!(!page.contains("thread 1<br>"));
}

#[test]
fn index_thread_markup() {
    let mut board = Board::new();
    store_thread(&mut board, post(0, 10, "hello")).unwrap();
    store_reply(&mut board, post(1, 0, "r"), 20).unwrap();
    let page = board_index(&board, 1, None);
    assert!(page.ends_with(
        "<hr><div class=\"thread\"><div id=\"1\" class=\"post op\"><div class=\"intro\"><span class=\"name\">Anonymous</span> <a href=\"/thread/1\">Reply [1]</a></div><div class=\"body\">hello<br></div></div><div id=\"2\" class=\"post reply\"><div class=\"intro\"><span class=\"name\">Anonymous</span></div><div class=\"body\">r<br></div></div><br></div><hr></body></html>"
    ));
}
