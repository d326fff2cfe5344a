use template_engine::article::Article;
use template_engine::engine::{Event, Expander, FileResult, Query, QueryResult, Request};
use template_engine::errors::Error;

fn bytes(s: &str) -> Vec<u8> {
    s.as_bytes().to_vec()
}

fn art(title: &str, path: &str, date: &str, author: &str) -> Article {
    Article { title: bytes(title), path: bytes(path), date: bytes(date), author: bytes(author) }
}

fn text_of(e: &Expander) -> String {
    String::from_utf8(e.buf.clone()).unwrap()
}

#[test]
fn no_placeholder_is_no_op() {
    let mut e = Expander::new(bytes("plain text, no tokens"), vec![], 100);
    let r = e.step(Event::Start);
    assert!(matches!(r, Ok(Request::Done)));
    assert_eq!(e.buf, bytes("plain text, no tokens"));
}

#[test]
fn second_pass_is_no_op() {
    let mut e = Expander::new(bytes("still nothing"), vec![], 100);
    assert!(matches!(e.step(Event::Start), Ok(Request::Done)));
    assert!(matches!(e.step(Event::Start), Ok(Request::Done)));
    assert_eq!(e.buf, bytes("still nothing"));
}

#[test]
fn path_file_expands_verbatim() {
    let mut e = Expander::new(bytes("a{{{/hi.txt}}}b"), vec![], 100);
    match e.step(Event::Start) {
        Ok(Request::NeedFile(p)) => assert_eq!(p, bytes("hi.txt")),
        _ => panic!("expected a file request"),
    }
    let r = e.step(Event::File(FileResult::Read { text: bytes("HI"), markup: false }));
    assert!(matches!(r, Ok(Request::Done)));
    assert_eq!(e.buf, bytes("aHIb"));
}

#[test]
fn markdown_file_is_rendered() {
    let mut e = Expander::new(bytes("{{{/note.md}}}"), vec![], 100);
    match e.step(Event::Start) {
        Ok(Request::NeedFile(p)) => assert_eq!(p, bytes("note.md")),
        _ => panic!("expected a file request"),
    }
    let r = e.step(Event::File(FileResult::Read { text: bytes("# T"), markup: true }));
    assert!(matches!(r, Ok(Request::Done)));
    assert_eq!(text_of(&e), "<h1>T</h1>\n");
}

#[test]
fn positional_resolves_like_path() {
    let mut e1 = Expander::new(bytes("{{{%1}}}"), vec![bytes("hi.txt")], 100);
    let mut e2 = Expander::new(bytes("{{{/hi.txt}}}"), vec![], 100);
    match (e1.step(Event::Start), e2.step(Event::Start)) {
        (Ok(Request::NeedFile(a)), Ok(Request::NeedFile(b))) => {
            assert_eq!(a, b);
            assert_eq!(a, bytes("hi.txt"));
        }
        _ => panic!("expected two file requests"),
    }
    e1.step(Event::File(FileResult::Read { text: bytes("HI"), markup: false })).unwrap();
    e2.step(Event::File(FileResult::Read { text: bytes("HI"), markup: false })).unwrap();
    assert_eq!(e1.buf, e2.buf);
    assert_eq!(e1.buf, bytes("HI"));
}

#[test]
fn ranked_preview_empty_list_is_empty() {
    let mut e = Expander::new(bytes("{{{preview~1}}}"), vec![], 100);
    assert!(matches!(e.step(Event::Start), Ok(Request::NeedQuery(Query::AllOrdered))));
    let r = e.step(Event::Query(QueryResult::All(vec![])));
    assert!(matches!(r, Ok(Request::Done)));
    assert_eq!(e.buf, bytes(""));
}

#[test]
fn missing_article_file_aborts_with_partial_buffer() {
    let mut e = Expander::new(bytes("x{{{/a.txt}}}y{{{article hello}}}z"), vec![], 100);
    match e.step(Event::Start) {
        Ok(Request::NeedFile(p)) => assert_eq!(p, bytes("a.txt")),
        _ => panic!("expected a file request"),
    }
    match e.step(Event::File(FileResult::Read { text: bytes("A"), markup: false })) {
        Ok(Request::NeedQuery(Query::OneByTitle(t))) => assert_eq!(t, bytes("hello")),
        _ => panic!("expected a title query"),
    }
    match e.step(Event::Query(QueryResult::One(art("hello", "posts/hello.md", "2020-01-01", "ann")))) {
        Ok(Request::NeedFile(p)) => assert_eq!(p, bytes("posts/hello.md")),
        _ => panic!("expected a file request"),
    }
    match e.step(Event::File(FileResult::Missing)) {
        Err(Error::ResourceNotFound(p)) => assert_eq!(p, bytes("posts/hello.md")),
        _ => panic!("expected a resource-not-found error"),
    }
    assert_eq!(e.buf, bytes("xAy{{{article hello}}}z"));
}

#[test]
fn exactly_one_violation_is_storage_error() {
    let mut e = Expander::new(bytes("{{{article%1}}}"), vec![bytes("k")], 100);
    match e.step(Event::Start) {
        Ok(Request::NeedQuery(Query::OneByPath(p))) => assert_eq!(p, bytes("k")),
        _ => panic!("expected a path query"),
    }
    let r = e.step(Event::Query(QueryResult::Failed(bytes("expected exactly one row"))));
    assert!(matches!(r, Err(Error::Storage(_))));
    assert_eq!(e.buf, bytes("{{{article%1}}}"));
}

#[test]
fn ranked_preview_picks_nth_by_date() {
    let rows = vec![
        art("first", "p1", "2019-05-01", "a"),
        art("second", "p2", "2020-06-02", "b"),
        art("third", "p3", "2021-07-03", "c"),
    ];
    let mut e = Expander::new(bytes("{{{preview~2}}}"), vec![], 100);
    assert!(matches!(e.step(Event::Start), Ok(Request::NeedQuery(Query::AllOrdered))));
    let r = e.step(Event::Query(QueryResult::All(rows)));
    assert!(matches!(r, Ok(Request::Done)));
    assert_eq!(text_of(&e), "<article><h2><a href=\"p2\">second</a></h2>2020-06-02 ~b</article>");
}

#[test]
fn titled_article_formats_full_markup() {
    let mut e = Expander::new(bytes("{{{article hello}}}"), vec![], 100);
    e.step(Event::Start).unwrap();
    e.step(Event::Query(QueryResult::One(art("hello", "h.md", "2020-01-01", "ann")))).unwrap();
    let r = e.step(Event::File(FileResult::Read { text: bytes("# Hi"), markup: true }));
    assert!(matches!(r, Ok(Request::Done)));
    assert_eq!(text_of(&e), "<article><h2>hello</h2>2020-01-01 ~ann<br/><h1>Hi</h1>\n</article>");
}

#[test]
fn ranked_article_out_of_range_is_empty() {
    let mut e = Expander::new(bytes("A{{{article~5}}}B"), vec![], 100);
    e.step(Event::Start).unwrap();
    let r = e.step(Event::Query(QueryResult::All(vec![art("t", "p", "2020-01-01", "a")])));
    assert!(matches!(r, Ok(Request::Done)));
    assert_eq!(e.buf, bytes("AB"));
}

#[test]
fn ranked_article_in_range_formats_full_markup() {
    let mut e = Expander::new(bytes("{{{article~1}}}"), vec![], 100);
    e.step(Event::Start).unwrap();
    match e.step(Event::Query(QueryResult::All(vec![art("t", "p.txt", "2020-01-01", "a")]))) {
        Ok(Request::NeedFile(p)) => assert_eq!(p, bytes("p.txt")),
        _ => panic!("expected a file request"),
    }
    let r = e.step(Event::File(FileResult::Read { text: bytes("body"), markup: false }));
    assert!(matches!(r, Ok(Request::Done)));
    assert_eq!(text_of(&e), "<article><h2>t</h2>2020-01-01 ~a<br/>body</article>");
}

#[test]
fn titled_preview_absent_is_empty() {
    let mut e = Expander::new(bytes("[{{{preview nope}}}]"), vec![], 100);
    match e.step(Event::Start) {
        Ok(Request::NeedQuery(Query::OptByTitle(t))) => assert_eq!(t, bytes("nope")),
        _ => panic!("expected an optional title query"),
    }
    let r = e.step(Event::Query(QueryResult::Opt(None)));
    assert!(matches!(r, Ok(Request::Done)));
    assert_eq!(e.buf, bytes("[]"));
}

#[test]
fn titled_preview_present_formats_preview() {
    let mut e = Expander::new(bytes("{{{preview t}}}"), vec![], 100);
    e.step(Event::Start).unwrap();
    let r = e.step(Event::Query(QueryResult::Opt(Some(art("t", "p", "2020-01-01", "a")))));
    assert!(matches!(r, Ok(Request::Done)));
    assert_eq!(text_of(&e), "<article><h2><a href=\"p\">t</a></h2>2020-01-01 ~a</article>");
}

#[test]
fn unrecognized_pattern_stays_literal() {
    let mut e = Expander::new(bytes("a{{{nope}}}b"), vec![], 100);
    let r = e.step(Event::Start);
    assert!(matches!(r, Ok(Request::Done)));
    assert_eq!(e.buf, bytes("a{{{nope}}}b"));
}

#[test]
fn unterminated_placeholder_stays_literal() {
    let mut e = Expander::new(bytes("a{{{oops"), vec![], 100);
    let r = e.step(Event::Start);
    assert!(matches!(r, Ok(Request::Done)));
    assert_eq!(e.buf, bytes("a{{{oops"));
}

#[test]
fn malformed_number_aborts() {
    let mut e = Expander::new(bytes("{{{%x}}}"), vec![bytes("a")], 100);
    let r = e.step(Event::Start);
    assert!(matches!(r, Err(Error::MalformedNumber)));
}

#[test]
fn zero_index_is_malformed() {
    let mut e = Expander::new(bytes("{{{%0}}}"), vec![bytes("a")], 100);
    let r = e.step(Event::Start);
    assert!(matches!(r, Err(Error::MalformedNumber)));
}

#[test]
fn huge_index_is_malformed() {
    let mut e = Expander::new(bytes("{{{preview~99999999999999999999999999}}}"), vec![], 100);
    let r = e.step(Event::Start);
    assert!(matches!(r, Err(Error::MalformedNumber)));
}

#[test]
fn index_out_of_range_aborts() {
    let mut e = Expander::new(bytes("{{{%2}}}"), vec![bytes("a")], 100);
    match e.step(Event::Start) {
        Err(Error::ArgumentOutOfRange(n)) => assert_eq!(n, 2),
        _ => panic!("expected an out-of-range error"),
    }
}

#[test]
fn article_index_out_of_range_aborts() {
    let mut e = Expander::new(bytes("{{{article%3}}}"), vec![], 100);
    match e.step(Event::Start) {
        Err(Error::ArgumentOutOfRange(n)) => assert_eq!(n, 3),
        _ => panic!("expected an out-of-range error"),
    }
}

#[test]
fn invalid_path_aborts() {
    let mut e = Expander::new(bytes("{{{/../secret}}}"), vec![], 100);
    match e.step(Event::Start) {
        Ok(Request::NeedFile(p)) => assert_eq!(p, bytes("../secret")),
        _ => panic!("expected a file request"),
    }
    match e.step(Event::File(FileResult::Invalid)) {
        Err(Error::InvalidPath(p)) => assert_eq!(p, bytes("../secret")),
        _ => panic!("expected an invalid-path error"),
    }
}

#[test]
fn plain_missing_file_is_read_error() {
    let mut e = Expander::new(bytes("{{{/gone.txt}}}"), vec![], 100);
    e.step(Event::Start).unwrap();
    match e.step(Event::File(FileResult::Missing)) {
        Err(Error::FileRead(p)) => assert_eq!(p, bytes("gone.txt")),
        _ => panic!("expected a file-read error"),
    }
}

#[test]
fn file_read_failure_aborts() {
    let mut e = Expander::new(bytes("{{{/a}}}"), vec![], 100);
    e.step(Event::Start).unwrap();
    let r = e.step(Event::File(FileResult::Failed(bytes("permission denied"))));
    assert!(matches!(r, Err(Error::FileRead(_))));
}

#[test]
fn fuel_exhaustion_errors() {
    let mut e = Expander::new(bytes("{{{/a}}}"), vec![], 0);
    let r = e.step(Event::Start);
    assert!(matches!(r, Err(Error::LimitExceeded)));
}

#[test]
fn resolved_content_is_rescanned() {
    let mut e = Expander::new(bytes("{{{/a}}}"), vec![], 100);
    match e.step(Event::Start) {
        Ok(Request::NeedFile(p)) => assert_eq!(p, bytes("a")),
        _ => panic!("expected a file request"),
    }
    match e.step(Event::File(FileResult::Read { text: bytes("{{{/b}}}"), markup: false })) {
        Ok(Request::NeedFile(p)) => assert_eq!(p, bytes("b")),
        _ => panic!("expected a second file request"),
    }
    let r = e.step(Event::File(FileResult::Read { text: bytes("X"), markup: false }));
    assert!(matches!(r, Ok(Request::Done)));
    assert_eq!(e.buf, bytes("X"));
}

#[test]
fn leftmost_placeholder_resolves_first() {
    let mut e = Expander::new(bytes("{{{/a}}}{{{/b}}}"), vec![], 100);
    match e.step(Event::Start) {
        Ok(Request::NeedFile(p)) => assert_eq!(p, bytes("a")),
        _ => panic!("expected a file request"),
    }
    match e.step(Event::File(FileResult::Read { text: bytes("1"), markup: false })) {
        Ok(Request::NeedFile(p)) => assert_eq!(p, bytes("b")),
        _ => panic!("expected a second file request"),
    }
    let r = e.step(Event::File(FileResult::Read { text: bytes("2"), markup: false }));
    assert!(matches!(r, Ok(Request::Done)));
    assert_eq!(e.buf, bytes("12"));
}

#[test]
fn skipped_placeholder_does_not_block_later_ones() {
    let mut e = Expander::new(bytes("{{{skip}}}{{{/a}}}"), vec![], 100);
    match e.step(Event::Start) {
        Ok(Request::NeedFile(p)) => assert_eq!(p, bytes("a")),
        _ => panic!("expected a file request"),
    }
    let r = e.step(Event::File(FileResult::Read { text: bytes("X"), markup: false }));
    assert!(matches!(r, Ok(Request::Done)));
    assert_eq!(e.buf, bytes("{{{skip}}}X"));
}
