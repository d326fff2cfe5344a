//! Article records and the markup built from them.

use vstd::prelude::*;

verus! {

/// One row of the storage collaborator's `articles` table, as plain bytes.
/// The creation date is carried already formatted as `yyyy-mm-dd`.
pub struct Article {
    pub title: Vec<u8>,
    pub path: Vec<u8>,
    pub date: Vec<u8>,
    pub author: Vec<u8>,
}

/// Field-wise equality of two article records.
pub open spec fn same_article(a: Article, b: Article) -> bool {
    &&& a.title@ == b.title@
    &&& a.path@ == b.path@
    &&& a.date@ == b.date@
    &&& a.author@ == b.author@
}

/// The bytes of `<article><h2>`.
pub open spec fn lit_article_h2() -> Seq<u8> {
    seq![60u8, 97u8, 114u8, 116u8, 105u8, 99u8, 108u8, 101u8, 62u8, 60u8, 104u8, 50u8, 62u8]
}

/// The bytes of `</h2>`.
pub open spec fn lit_close_h2() -> Seq<u8> {
    seq![60u8, 47u8, 104u8, 50u8, 62u8]
}

/// The bytes of ` ~`.
pub open spec fn lit_tilde() -> Seq<u8> {
    seq![32u8, 126u8]
}

/// The bytes of `<br/>`.
pub open spec fn lit_br() -> Seq<u8> {
    seq![60u8, 98u8, 114u8, 47u8, 62u8]
}

/// The bytes of `</article>`.
pub open spec fn lit_close_article() -> Seq<u8> {
    seq![60u8, 47u8, 97u8, 114u8, 116u8, 105u8, 99u8, 108u8, 101u8, 62u8]
}

/// The bytes of `<a href="`.
pub open spec fn lit_a_href() -> Seq<u8> {
    seq![60u8, 97u8, 32u8, 104u8, 114u8, 101u8, 102u8, 61u8, 34u8]
}

/// The bytes of `">`.
pub open spec fn lit_quote_gt() -> Seq<u8> {
    seq![34u8, 62u8]
}

/// The bytes of `</a></h2>`.
pub open spec fn lit_close_a_h2() -> Seq<u8> {
    seq![60u8, 47u8, 97u8, 62u8, 60u8, 47u8, 104u8, 50u8, 62u8]
}

/// The full-article rendering:
/// `<article><h2>{title}</h2>{date} ~{author}<br/>{contents}</article>`.
pub open spec fn full_markup(title: Seq<u8>, date: Seq<u8>, author: Seq<u8>, contents: Seq<u8>) -> Seq<
    u8,
> {
    lit_article_h2() + title + lit_close_h2() + date + lit_tilde() + author + lit_br() + contents
        + lit_close_article()
}

/// The preview rendering:
/// `<article><h2><a href="{path}">{title}</a></h2>{date} ~{author}</article>`.
pub open spec fn preview_markup(path: Seq<u8>, title: Seq<u8>, date: Seq<u8>, author: Seq<u8>) -> Seq<
    u8,
> {
    lit_article_h2() + lit_a_href() + path + lit_quote_gt() + title + lit_close_a_h2() + date
        + lit_tilde() + author + lit_close_article()
}

/// Appends a copy of `src` to `out`.
pub fn append(out: &mut Vec<u8>, src: &Vec<u8>)
    ensures
        final(out)@ == old(out)@ + src@,
{
    let n = src.len();
    let mut i: usize = 0;
    while i < n
        invariant
            0 <= i <= n,
            n == src@.len(),
            out@ =~= old(out)@ + src@.take(i as int),
        decreases n - i,
    {
        out.push(src[i]);
        i = i + 1;
    }
    assert(src@.take(n as int) =~= src@);
}

/// A fresh copy of `v`.
pub fn copy_bytes(v: &Vec<u8>) -> (r: Vec<u8>)
    ensures
        r@ == v@,
{
    let mut r: Vec<u8> = Vec::new();
    append(&mut r, v);
    assert(r@ =~= v@);
    r
}

/// A fresh copy of an article record.
pub fn copy_article(a: &Article) -> (r: Article)
    ensures
        same_article(r, *a),
{
    Article {
        title: copy_bytes(&a.title),
        path: copy_bytes(&a.path),
        date: copy_bytes(&a.date),
        author: copy_bytes(&a.author),
    }
}

fn push_article_h2(out: &mut Vec<u8>)
    ensures
        final(out)@ == old(out)@ + lit_article_h2(),
{
    out.push(60);
    out.push(97);
    out.push(114);
    out.push(116);
    out.push(105);
    out.push(99);
    out.push(108);
    out.push(101);
    out.push(62);
    out.push(60);
    out.push(104);
    out.push(50);
    out.push(62);
    assert(out@ =~= old(out)@ + lit_article_h2());
}

fn push_close_h2(out: &mut Vec<u8>)
    ensures
        final(out)@ == old(out)@ + lit_close_h2(),
{
    out.push(60);
    out.push(47);
    out.push(104);
    out.push(50);
    out.push(62);
    assert(out@ =~= old(out)@ + lit_close_h2());
}

fn push_tilde(out: &mut Vec<u8>)
    ensures
        final(out)@ == old(out)@ + lit_tilde(),
{
    out.push(32);
    out.push(126);
    assert(out@ =~= old(out)@ + lit_tilde());
}

fn push_br(out: &mut Vec<u8>)
    ensures
        final(out)@ == old(out)@ + lit_br(),
{
    out.push(60);
    out.push(98);
    out.push(114);
    out.push(47);
    out.push(62);
    assert(out@ =~= old(out)@ + lit_br());
}

fn push_close_article(out: &mut Vec<u8>)
    ensures
        final(out)@ == old(out)@ + lit_close_article(),
{
    out.push(60);
    out.push(47);
    out.push(97);
    out.push(114);
    out.push(116);
    out.push(105);
    out.push(99);
    out.push(108);
    out.push(101);
    out.push(62);
    assert(out@ =~= old(out)@ + lit_close_article());
}

fn push_a_href(out: &mut Vec<u8>)
    ensures
        final(out)@ == old(out)@ + lit_a_href(),
{
    out.push(60);
    out.push(97);
    out.push(32);
    out.push(104);
    out.push(114);
    out.push(101);
    out.push(102);
    out.push(61);
    out.push(34);
    assert(out@ =~= old(out)@ + lit_a_href());
}

fn push_quote_gt(out: &mut Vec<u8>)
    ensures
        final(out)@ == old(out)@ + lit_quote_gt(),
{
    out.push(34);
    out.push(62);
    assert(out@ =~= old(out)@ + lit_quote_gt());
}

fn push_close_a_h2(out: &mut Vec<u8>)
    ensures
        final(out)@ == old(out)@ + lit_close_a_h2(),
{
    out.push(60);
    out.push(47);
    out.push(97);
    out.push(62);
    out.push(60);
    out.push(47);
    out.push(104);
    out.push(50);
    out.push(62);
    assert(out@ =~= old(out)@ + lit_close_a_h2());
}

/// Renders an article with its body contents as the full-article markup.
pub fn format_full(a: &Article, contents: &Vec<u8>) -> (r: Vec<u8>)
    ensures
        r@ == full_markup(a.title@, a.date@, a.author@, contents@),
{
    let mut out: Vec<u8> = Vec::new();
    push_article_h2(&mut out);
    append(&mut out, &a.title);
    push_close_h2(&mut out);
    append(&mut out, &a.date);
    push_tilde(&mut out);
    append(&mut out, &a.author);
    push_br(&mut out);
    append(&mut out, contents);
    push_close_article(&mut out);
    assert(out@ =~= full_markup(a.title@, a.date@, a.author@, contents@));
    out
}

/// Renders an article without its body as the preview markup.
pub fn format_preview(a: &Article) -> (r: Vec<u8>)
    ensures
        r@ == preview_markup(a.path@, a.title@, a.date@, a.author@),
{
    let mut out: Vec<u8> = Vec::new();
    push_article_h2(&mut out);
    push_a_href(&mut out);
    append(&mut out, &a.path);
    push_quote_gt(&mut out);
    append(&mut out, &a.title);
    push_close_a_h2(&mut out);
    append(&mut out, &a.date);
    push_tilde(&mut out);
    append(&mut out, &a.author);
    push_close_article(&mut out);
    assert(out@ =~= preview_markup(a.path@, a.title@, a.date@, a.author@));
    out
}

/// The row that a 1-based rank selects, or `None` when the rank lies outside
/// the list.
pub fn select_ranked(rows: &Vec<Article>, n: usize) -> (r: Option<&Article>)
    ensures
        match r {
            Some(a) => 1 <= n && n <= rows@.len() && *a == rows@[n - 1],
            None => !(1 <= n && n <= rows@.len()),
        },
{
    if n >= 1 && n <= rows.len() {
        Some(&rows[n - 1])
    } else {
        None
    }
}

/// Lexicographic order on byte strings; on `yyyy-mm-dd` dates it is
/// chronological order.
pub open spec fn bytes_le(a: Seq<u8>, b: Seq<u8>) -> bool
    decreases a.len(),
{
    if a.len() == 0 {
        true
    } else if b.len() == 0 {
        false
    } else if a[0] < b[0] {
        true
    } else if a[0] > b[0] {
        false
    } else {
        bytes_le(a.skip(1), b.skip(1))
    }
}

/// True when the rows stand in ascending creation-date order.
pub open spec fn date_sorted(rows: Seq<Article>) -> bool {
    forall|i: int, j: int|
        0 <= i <= j < rows.len() ==> #[trigger] bytes_le(rows[i].date@, rows[j].date@)
}

/// Ranked selection law: against a list ordered by creation date ascending,
/// rank `n` selects the row at position `n - 1`; no earlier row has a later
/// date than it, and it has no later date than any row after it.
pub proof fn lemma_ranked_selection(rows: Seq<Article>, n: usize)
    requires
        date_sorted(rows),
        1 <= n <= rows.len(),
    ensures
        forall|j: int| 0 <= j < n - 1 ==> #[trigger] bytes_le(rows[j].date@, rows[n - 1].date@),
        forall|j: int|
            n - 1 <= j < rows.len() ==> #[trigger] bytes_le(rows[n - 1].date@, rows[j].date@),
{
}

} // verus!
