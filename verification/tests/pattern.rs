use template_engine::article::{format_full, format_preview, select_ranked, Article};
use template_engine::errors::Error;
use template_engine::pattern::{parse_payload, Pattern};

fn by(s: &str) -> Vec<u8> {
    s.as_bytes().to_vec()
}

#[test]
fn parse_path_sigil() {
    match parse_payload(&by("/dir/f.txt")) {
        Ok(Some(Pattern::Path(p))) => assert_eq!(p, by("dir/f.txt")),
        _ => panic!("expected a path pattern"),
    }
}

#[test]
fn parse_positional_sigil() {
    assert!(matches!(parse_payload(&by("%12")), Ok(Some(Pattern::Positional(12)))));
}

#[test]
fn parse_article_positional_sigil() {
    assert!(matches!(parse_payload(&by("article%3")), Ok(Some(Pattern::ArticlePositional(3)))));
}

#[test]
fn parse_preview_latest_sigil() {
    assert!(matches!(parse_payload(&by("preview~2")), Ok(Some(Pattern::PreviewLatest(2)))));
}

#[test]
fn parse_article_latest_sigil() {
    assert!(matches!(parse_payload(&by("article~9")), Ok(Some(Pattern::ArticleLatest(9)))));
}

#[test]
fn parse_preview_title_sigil() {
    match parse_payload(&by("preview a b")) {
        Ok(Some(Pattern::PreviewTitle(t))) => assert_eq!(t, by("a b")),
        _ => panic!("expected a preview-title pattern"),
    }
}

#[test]
fn parse_article_title_sigil() {
    match parse_payload(&by("article The Title")) {
        Ok(Some(Pattern::ArticleTitle(t))) => assert_eq!(t, by("The Title")),
        _ => panic!("expected an article-title pattern"),
    }
}

#[test]
fn parse_title_payload_is_verbatim() {
    match parse_payload(&by("article  spaced  ")) {
        Ok(Some(Pattern::ArticleTitle(t))) => assert_eq!(t, by(" spaced  ")),
        _ => panic!("expected an article-title pattern"),
    }
}

#[test]
fn parse_unrecognized_payloads() {
    assert!(matches!(parse_payload(&by("")), Ok(None)));
    assert!(matches!(parse_payload(&by("hello")), Ok(None)));
    assert!(matches!(parse_payload(&by(" article x")), Ok(None)));
    assert!(matches!(parse_payload(&by("previewx")), Ok(None)));
    assert!(matches!(parse_payload(&by("articlex")), Ok(None)));
}

#[test]
fn parse_bad_numbers() {
    assert!(matches!(parse_payload(&by("%")), Err(Error::MalformedNumber)));
    assert!(matches!(parse_payload(&by("%a")), Err(Error::MalformedNumber)));
    assert!(matches!(parse_payload(&by("%0")), Err(Error::MalformedNumber)));
    assert!(matches!(parse_payload(&by("preview~-1")), Err(Error::MalformedNumber)));
    assert!(matches!(parse_payload(&by("article~1x")), Err(Error::MalformedNumber)));
}

#[test]
fn parse_number_with_leading_zeros() {
    assert!(matches!(parse_payload(&by("%007")), Ok(Some(Pattern::Positional(7)))));
}

fn art(title: &str, path: &str, date: &str, author: &str) -> Article {
    Article { title: by(title), path: by(path), date: by(date), author: by(author) }
}

#[test]
fn full_markup_shape() {
    let a = art("T", "p", "2021-02-03", "A");
    let out = format_full(&a, &by("B"));
    assert_eq!(String::from_utf8(out).unwrap(), "<article><h2>T</h2>2021-02-03 ~A<br/>B</article>");
}

#[test]
fn preview_markup_shape() {
    let a = art("T", "p", "2021-02-03", "A");
    let out = format_preview(&a);
    assert_eq!(
        String::from_utf8(out).unwrap(),
        "<article><h2><a href=\"p\">T</a></h2>2021-02-03 ~A</article>"
    );
}

#[test]
fn select_ranked_is_one_based() {
    let rows = vec![art("a", "1", "2019-01-01", "x"), art("b", "2", "2020-01-01", "y")];
    assert!(select_ranked(&rows, 0).is_none());
    assert_eq!(select_ranked(&rows, 1).unwrap().title, by("a"));
    assert_eq!(select_ranked(&rows, 2).unwrap().title, by("b"));
    assert!(select_ranked(&rows, 3).is_none());
}
