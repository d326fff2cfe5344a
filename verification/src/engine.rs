//! The substitution loop as a verified state machine.
//!
//! The engine owns the buffer and the argument list. The caller drives it:
//! `step(Event::Start)` begins a pass, and every reply either finishes the
//! pass (`Done`), aborts it (an error), or names the one piece of outside
//! work to do next (`NeedQuery`, `NeedFile`). The caller performs that work
//! and hands the outcome back through the next `step` call. All decisions —
//! which placeholder is next, which variant it is, what replaces it, which
//! error aborts — are made here and verified; only the storage lookup, the
//! file read and the Markdown rendering happen outside.

use vstd::prelude::*;
use crate::article::{
    Article,
    same_article,
    full_markup,
    preview_markup,
    format_full,
    format_preview,
    copy_bytes,
    copy_article,
};
use crate::errors::Error;
use crate::pattern::{
    Pattern,
    pattern_matches,
    sigiled,
    numeric_ok,
    valid_index,
    digits_val,
    parse_payload,
    sig_path,
    sig_positional,
    sig_article_positional,
    sig_preview_latest,
    sig_article_latest,
    sig_preview_title,
    sig_article_title,
    has_prefix,
    lemma_sigil_heads,
};
use crate::scan::{
    find_open,
    find_close,
    first_open,
    first_close,
    is_open_at,
    is_close_at,
    has_open,
    lemma_first_open_bounds,
    lemma_first_close_bounds,
};

verus! {

/// What the engine asks the storage collaborator to run.
pub enum Query {
    /// Exactly one row whose path equals the key; zero or several is an error.
    OneByPath(Vec<u8>),
    /// Exactly one row whose title equals the key; zero or several is an error.
    OneByTitle(Vec<u8>),
    /// Zero or one row whose title equals the key; zero is not an error.
    OptByTitle(Vec<u8>),
    /// All rows, ordered by creation date ascending.
    AllOrdered,
}

/// One reply of the engine: the pass is finished, or one piece of outside
/// work is due.
pub enum Request {
    Done,
    NeedQuery(Query),
    NeedFile(Vec<u8>),
}

/// The outcome of a storage query, as the caller reports it.
pub enum QueryResult {
    /// The single row of an exactly-one lookup.
    One(Article),
    /// The row, if any, of a zero-or-one lookup.
    Opt(Option<Article>),
    /// The ordered rows of an all-rows query.
    All(Vec<Article>),
    /// The storage collaborator failed, including an exactly-one lookup that
    /// matched zero or more than one row.
    Failed(Vec<u8>),
}

/// The outcome of resolving and reading a file, as the caller reports it.
pub enum FileResult {
    /// The file was read; `markup` says whether its extension is the markup
    /// extension, in which case the engine renders the text to HTML.
    Read { text: Vec<u8>, markup: bool },
    /// The sandboxed-path collaborator rejected the path.
    Invalid,
    /// The path is sandbox-valid but no file exists there. For an
    /// article-backed lookup this is the resource-not-found error; for a
    /// plain path it aborts as a failed read.
    Missing,
    /// The read itself failed.
    Failed(Vec<u8>),
}

/// What the caller hands to `step`: `Start` to begin, otherwise the outcome
/// of the work the engine requested last.
pub enum Event {
    Start,
    Query(QueryResult),
    File(FileResult),
}

/// Where the engine stands between two `step` calls.
pub enum Phase {
    /// Looking for the next placeholder.
    Scanning,
    /// A query for the placeholder spanning `start .. close + 3` is out.
    AwaitQuery { start: usize, close: usize, pat: Pattern },
    /// A file request for the placeholder spanning `start .. close + 3` is
    /// out; `article` carries the row whose markup will wrap the contents.
    AwaitFile { start: usize, close: usize, path: Vec<u8>, article: Option<Article> },
    /// The pass is over: no expandable placeholder remains, or an error
    /// aborted it.
    Finished,
}

/// The expansion engine: the buffer being rewritten, the caller's positional
/// arguments, a bound on how many placeholders one pass may expand, and the
/// phase.
pub struct Expander {
    pub buf: Vec<u8>,
    pub args: Vec<Vec<u8>>,
    pub fuel: usize,
    pub phase: Phase,
}

/// What an unnamed Markdown renderer returns on `text`: the result depends
/// on the text alone.
pub uninterp spec fn html_of(text: Seq<u8>) -> Seq<u8>;

/// Relies on pulldown_cmark's `Parser::new_ext` (with all extensions) and
/// `html::push_html` for the Markdown-to-HTML rendering; the result is a
/// function of the input text alone.
#[verifier::external_body]
fn render_markdown(text: &Vec<u8>) -> (r: Vec<u8>)
    ensures
        r@ == html_of(text@),
{
    let s = String::from_utf8_lossy(text);
    let parser = pulldown_cmark::Parser::new_ext(&s, pulldown_cmark::Options::all());
    let mut html = String::new();
    pulldown_cmark::html::push_html(&mut html, parser);
    html.into_bytes()
}

/// The views of a sequence of byte vectors.
pub open spec fn arg_views(a: Seq<Vec<u8>>) -> Seq<Seq<u8>> {
    Seq::new(a.len(), |i: int| a[i]@)
}

/// Field-wise equality of two optional article records.
pub open spec fn opt_same_article(a: Option<Article>, b: Option<Article>) -> bool {
    match (a, b) {
        (Option::None, Option::None) => true,
        (Option::Some(x), Option::Some(y)) => same_article(x, y),
        _ => false,
    }
}

/// `r` reports that the pass is complete.
pub open spec fn replies_done(r: Result<Request, Error>) -> bool {
    r matches Ok(req) && req == Request::Done
}

/// `r` aborts the pass with exactly the error `e`.
pub open spec fn fails_with(r: Result<Request, Error>, e: Error) -> bool {
    r matches Err(x) && x == e
}

/// The buffer after replacing the span `start .. close + 3` by `rep`.
pub open spec fn spliced(s: Seq<u8>, start: int, close: int, rep: Seq<u8>) -> Seq<u8> {
    s.take(start) + rep + s.skip(close + 3)
}

/// The scanner's verdict on a buffer: nothing expandable remains, or the
/// leftmost expandable placeholder spans `start .. close + 3`.
pub enum ScanOut {
    NoMore,
    Hit { start: int, close: int },
}

/// Scans from `from`. The first opening delimiter whose span has a closing
/// delimiter and a sigil-matched payload wins; an opening with no closing
/// delimiter, or an unrecognized payload, is passed over and stays literal
/// text, so the scan always makes forward progress.
pub open spec fn scan_spec(s: Seq<u8>, from: int) -> ScanOut
    decreases s.len() - from,
    via scan_spec_dec
{
    match first_open(s, from) {
        Option::None => ScanOut::NoMore,
        Option::Some(i) => match first_close(s, i + 3) {
            Option::None => scan_spec(s, i + 3),
            Option::Some(c) => if sigiled(s.subrange(i + 3, c)) {
                ScanOut::Hit { start: i, close: c }
            } else {
                scan_spec(s, i + 3)
            },
        },
    }
}

#[via_fn]
proof fn scan_spec_dec(s: Seq<u8>, from: int) {
    lemma_first_open_bounds(s, from);
}

/// The span of a scan hit lies within the buffer, delimiters in place and
/// payload sigil-matched.
pub open spec fn hit_in_bounds(s: Seq<u8>, from: int) -> bool {
    match scan_spec(s, from) {
        ScanOut::Hit { start, close } => from <= start && is_open_at(s, start)
            && is_close_at(s, close) && start + 3 <= close && close + 3 <= s.len()
            && sigiled(s.subrange(start + 3, close)),
        ScanOut::NoMore => true,
    }
}

/// A hit of the scan lies within the buffer: an opening delimiter at
/// `start`, the first closing delimiter after it at `close`, and a
/// sigil-matched payload between them.
pub proof fn lemma_scan_hit(s: Seq<u8>, from: int)
    ensures
        hit_in_bounds(s, from),
    decreases s.len() - from,
{
    lemma_first_open_bounds(s, from);
    match first_open(s, from) {
        Option::None => {},
        Option::Some(i) => {
            lemma_first_close_bounds(s, i + 3);
            match first_close(s, i + 3) {
                Option::None => {
                    lemma_scan_hit(s, i + 3);
                },
                Option::Some(c) => {
                    if !sigiled(s.subrange(i + 3, c)) {
                        lemma_scan_hit(s, i + 3);
                    }
                },
            }
        },
    }
}

/// A copy of `buf[a .. b]`.
fn copy_range(buf: &Vec<u8>, a: usize, b: usize) -> (r: Vec<u8>)
    requires
        a <= b,
        b <= buf@.len(),
    ensures
        r@ == buf@.subrange(a as int, b as int),
{
    let mut r: Vec<u8> = Vec::new();
    let mut i = a;
    while i < b
        invariant
            a <= i <= b,
            b <= buf@.len(),
            r@ =~= buf@.subrange(a as int, i as int),
        decreases b - i,
    {
        r.push(buf[i]);
        i = i + 1;
    }
    r
}

/// Replaces `buf[start .. close + 3]` by `rep`.
fn splice(buf: &mut Vec<u8>, start: usize, close: usize, rep: &Vec<u8>)
    requires
        start <= close,
        close + 3 <= old(buf)@.len(),
    ensures
        final(buf)@ == spliced(old(buf)@, start as int, close as int, rep@),
{
    let mut out: Vec<u8> = Vec::new();
    let mut i: usize = 0;
    while i < start
        invariant
            buf@ == old(buf)@,
            0 <= i <= start,
            start <= buf@.len(),
            out@ =~= buf@.subrange(0, i as int),
        decreases start - i,
    {
        out.push(buf[i]);
        i = i + 1;
    }
    crate::article::append(&mut out, rep);
    let n = buf.len();
    let mut j = close + 3;
    while j < n
        invariant
            buf@ == old(buf)@,
            close + 3 <= j <= n,
            n == buf@.len(),
            out@ =~= buf@.subrange(0, start as int) + rep@ + buf@.subrange(close + 3, j as int),
        decreases n - j,
    {
        out.push(buf[j]);
        j = j + 1;
    }
    assert(out@ =~= spliced(buf@, start as int, close as int, rep@));
    *buf = out;
}

/// Finds the leftmost expandable placeholder and parses its payload. A
/// sigil-matched payload whose numeric suffix is not a positive integer
/// aborts the pass.
fn scan_next(buf: &Vec<u8>) -> (r: Result<Option<(usize, usize, Pattern)>, Error>)
    ensures
        match r {
            Ok(Option::None) => scan_spec(buf@, 0) is NoMore,
            Ok(Option::Some((start, close, pat))) => scan_spec(buf@, 0) == (ScanOut::Hit {
                start: start as int,
                close: close as int,
            }) && start + 3 <= close && close + 3 <= buf@.len() && pattern_matches(
                buf@.subrange(start as int + 3, close as int),
                pat,
            ) && numeric_ok(buf@.subrange(start as int + 3, close as int)),
            Err(e) => e == Error::MalformedNumber && match scan_spec(buf@, 0) {
                ScanOut::Hit { start, close } => !numeric_ok(buf@.subrange(start as int + 3, close as int)),
                ScanOut::NoMore => false,
            },
        },
{
    let n = buf.len();
    let mut from: usize = 0;
    loop
        invariant
            n == buf@.len(),
            from <= n,
            scan_spec(buf@, 0) == scan_spec(buf@, from as int),
        decreases buf@.len() - from,
    {
        proof {
            lemma_first_open_bounds(buf@, from as int);
        }
        match find_open(buf, from) {
            Option::None => {
                return Ok(None);
            },
            Option::Some(i) => {
                proof {
                    lemma_first_close_bounds(buf@, i + 3);
                }
                match find_close(buf, i + 3) {
                    Option::None => {
                        from = i + 3;
                    },
                    Option::Some(c) => {
                        let payload = copy_range(buf, i + 3, c);
                        match parse_payload(&payload) {
                            Ok(Option::Some(pat)) => {
                                return Ok(Some((i, c, pat)));
                            },
                            Ok(Option::None) => {
                                from = i + 3;
                            },
                            Err(e) => {
                                return Err(e);
                            },
                        }
                    },
                }
            },
        }
    }
}

/// What the engine replies once a scan over buffer `nb` (with arguments
/// `args` and `fuel` expansions left) settles: `Done` when nothing
/// expandable remains, the abort that a malformed number or exhausted fuel
/// owes, or the request for the leftmost placeholder's outside work.
pub open spec fn scan_done(
    args: Seq<Seq<u8>>,
    fuel: usize,
    nb: Seq<u8>,
    post: Expander,
    r: Result<Request, Error>,
) -> bool {
    &&& post.buf@ == nb
    &&& arg_views(post.args@) == args
    &&& match scan_spec(nb, 0) {
        ScanOut::NoMore => replies_done(r) && post.phase is Finished && post.fuel == fuel,
        ScanOut::Hit { start, close } => {
            let p = nb.subrange(start + 3, close);
            if !numeric_ok(p) {
                fails_with(r, Error::MalformedNumber) && post.phase is Finished
            } else if fuel == 0 {
                fails_with(r, Error::LimitExceeded) && post.phase is Finished
            } else {
                hit_post(args, (fuel - 1) as usize, start, close, p, post, r)
            }
        },
    }
}

/// The engine waits for file `fpath` to resolve the span `start .. close + 3`,
/// wrapping the contents in full-article markup when `row` carries a record.
pub open spec fn file_wait(
    start: int,
    close: int,
    fpath: Seq<u8>,
    row: Option<Article>,
    post: Expander,
    r: Result<Request, Error>,
) -> bool {
    &&& r matches Ok(Request::NeedFile(q)) && q@ == fpath
    &&& post.phase matches Phase::AwaitFile { start: s2, close: c2, path, article } && s2 as int
        == start && c2 as int == close && path@ == fpath && opt_same_article(article, row)
}

/// The engine waits for a query to resolve the span `start .. close + 3` of a
/// placeholder whose payload is `p`.
pub open spec fn query_wait(start: int, close: int, p: Seq<u8>, post: Expander) -> bool {
    post.phase matches Phase::AwaitQuery { start: s2, close: c2, pat } && s2 as int == start && c2
        as int == close && pattern_matches(p, pat)
}

/// The request owed for the leftmost placeholder, by its payload's sigil:
/// a file for `/` and `%`, a query for the article and preview variants, and
/// the out-of-range error when a positional index exceeds the arguments.
pub open spec fn hit_post(
    args: Seq<Seq<u8>>,
    fuel: usize,
    start: int,
    close: int,
    p: Seq<u8>,
    post: Expander,
    r: Result<Request, Error>,
) -> bool {
    if p.len() >= 1 && p[0] == sig_path() {
        file_wait(start, close, p.skip(1), Option::None, post, r) && post.fuel == fuel
    } else if p.len() >= 1 && p[0] == sig_positional() {
        let n = digits_val(p.skip(1));
        if n <= args.len() {
            file_wait(start, close, args[n - 1], Option::None, post, r) && post.fuel == fuel
        } else {
            fails_with(r, Error::ArgumentOutOfRange(n as usize)) && post.phase is Finished
        }
    } else if has_prefix(p, sig_article_positional()) {
        let n = digits_val(p.skip(8));
        if n <= args.len() {
            &&& r matches Ok(Request::NeedQuery(Query::OneByPath(q))) && q@ == args[n - 1]
            &&& query_wait(start, close, p, post)
            &&& post.fuel == fuel
        } else {
            fails_with(r, Error::ArgumentOutOfRange(n as usize)) && post.phase is Finished
        }
    } else if has_prefix(p, sig_preview_latest()) || has_prefix(p, sig_article_latest()) {
        &&& r matches Ok(Request::NeedQuery(Query::AllOrdered))
        &&& query_wait(start, close, p, post)
        &&& post.fuel == fuel
    } else if has_prefix(p, sig_preview_title()) {
        &&& r matches Ok(Request::NeedQuery(Query::OptByTitle(q))) && q@ == p.skip(8)
        &&& query_wait(start, close, p, post)
        &&& post.fuel == fuel
    } else {
        &&& r matches Ok(Request::NeedQuery(Query::OneByTitle(q))) && q@ == p.skip(8)
        &&& query_wait(start, close, p, post)
        &&& post.fuel == fuel
    }
}

/// The 1-based rank that a ranked pattern carries.
pub open spec fn rank_of(pat: Pattern) -> int {
    match pat {
        Pattern::PreviewLatest(n) => n as int,
        Pattern::ArticleLatest(n) => n as int,
        _ => 0,
    }
}

/// The result shape each query kind owes: exactly-one lookups answer with
/// one row or a failure, zero-or-one lookups with an optional row, all-rows
/// queries with the ordered rows.
pub open spec fn shape_ok(pat: Pattern, qr: QueryResult) -> bool {
    match qr {
        QueryResult::Failed(m) => true,
        QueryResult::One(a) => pat is ArticlePositional || pat is ArticleTitle,
        QueryResult::Opt(o) => pat is PreviewTitle,
        QueryResult::All(rows) => pat is PreviewLatest || pat is ArticleLatest,
    }
}

/// How a query outcome resolves the waiting placeholder: a failure aborts;
/// an exactly-one row sends the engine to that row's backing file; a ranked
/// or titled hit splices its markup (preview) or fetches its file (full
/// article); a ranked miss or titled miss splices the empty string.
pub open spec fn query_step(
    pre: Expander,
    start: usize,
    close: usize,
    pat: Pattern,
    qr: QueryResult,
    post: Expander,
    r: Result<Request, Error>,
) -> bool {
    let args = arg_views(pre.args@);
    match qr {
        QueryResult::Failed(m) => {
            &&& r matches Err(Error::Storage(mm)) && mm@ == m@
            &&& post.phase is Finished
            &&& post.buf@ == pre.buf@
            &&& arg_views(post.args@) == args
        },
        QueryResult::One(a) => {
            &&& file_wait(start as int, close as int, a.path@, Option::Some(a), post, r)
            &&& post.buf@ == pre.buf@
            &&& post.fuel == pre.fuel
            &&& arg_views(post.args@) == args
        },
        QueryResult::Opt(opt) => match opt {
            Option::Some(a) => scan_done(
                args,
                pre.fuel,
                spliced(
                    pre.buf@,
                    start as int,
                    close as int,
                    preview_markup(a.path@, a.title@, a.date@, a.author@),
                ),
                post,
                r,
            ),
            Option::None => scan_done(
                args,
                pre.fuel,
                spliced(pre.buf@, start as int, close as int, Seq::<u8>::empty()),
                post,
                r,
            ),
        },
        QueryResult::All(rows) => {
            let n = rank_of(pat);
            if 1 <= n && n <= rows@.len() {
                if pat is PreviewLatest {
                    scan_done(
                        args,
                        pre.fuel,
                        spliced(
                            pre.buf@,
                            start as int,
                            close as int,
                            preview_markup(
                                rows@[n - 1].path@,
                                rows@[n - 1].title@,
                                rows@[n - 1].date@,
                                rows@[n - 1].author@,
                            ),
                        ),
                        post,
                        r,
                    )
                } else {
                    &&& file_wait(start as int, close as int, rows@[n - 1].path@, Option::Some(rows@[n - 1]), post, r)
                    &&& post.buf@ == pre.buf@
                    &&& post.fuel == pre.fuel
                    &&& arg_views(post.args@) == args
                }
            } else {
                scan_done(
                    args,
                    pre.fuel,
                    spliced(pre.buf@, start as int, close as int, Seq::<u8>::empty()),
                    post,
                    r,
                )
            }
        },
    }
}

/// How a file outcome resolves the waiting placeholder: rejection, absence
/// and read failure abort with their own errors; contents are rendered to
/// HTML when the file carries the markup extension, wrapped in full-article
/// markup when a row waits on them, and spliced in.
pub open spec fn file_step(
    pre: Expander,
    start: usize,
    close: usize,
    fpath: Seq<u8>,
    row: Option<Article>,
    fr: FileResult,
    post: Expander,
    r: Result<Request, Error>,
) -> bool {
    let args = arg_views(pre.args@);
    match fr {
        FileResult::Invalid => {
            &&& r matches Err(Error::InvalidPath(q)) && q@ == fpath
            &&& post.phase is Finished
            &&& post.buf@ == pre.buf@
            &&& arg_views(post.args@) == args
        },
        FileResult::Missing => {
            &&& (match row {
                Option::Some(a) => r matches Err(Error::ResourceNotFound(q)) && q@ == fpath,
                Option::None => r matches Err(Error::FileRead(q)) && q@ == fpath,
            })
            &&& post.phase is Finished
            &&& post.buf@ == pre.buf@
            &&& arg_views(post.args@) == args
        },
        FileResult::Failed(m) => {
            &&& r matches Err(Error::FileRead(mm)) && mm@ == m@
            &&& post.phase is Finished
            &&& post.buf@ == pre.buf@
            &&& arg_views(post.args@) == args
        },
        FileResult::Read { text, markup } => {
            let contents = if markup {
                html_of(text@)
            } else {
                text@
            };
            let rep = match row {
                Option::None => contents,
                Option::Some(a) => full_markup(a.title@, a.date@, a.author@, contents),
            };
            scan_done(args, pre.fuel, spliced(pre.buf@, start as int, close as int, rep), post, r)
        },
    }
}

/// The full transition relation of one `step` call.
pub open spec fn step_post(
    pre: Expander,
    ev: Event,
    post: Expander,
    r: Result<Request, Error>,
) -> bool {
    match pre.phase {
        Phase::Finished => {
            &&& replies_done(r)
            &&& post.buf@ == pre.buf@
            &&& post.phase is Finished
            &&& post.fuel == pre.fuel
            &&& arg_views(post.args@) == arg_views(pre.args@)
        },
        Phase::Scanning => scan_done(arg_views(pre.args@), pre.fuel, pre.buf@, post, r),
        Phase::AwaitQuery { start, close, pat } => match ev {
            Event::Query(qr) => query_step(pre, start, close, pat, qr, post, r),
            _ => true,
        },
        Phase::AwaitFile { start, close, path, article } => match ev {
            Event::File(fr) => file_step(pre, start, close, path@, article, fr, post, r),
            _ => true,
        },
    }
}

impl Expander {
    /// The span a waiting phase holds lies inside the buffer.
    pub open spec fn wf(&self) -> bool {
        match self.phase {
            Phase::AwaitQuery { start, close, pat } => start + 3 <= close && close + 3
                <= self.buf@.len(),
            Phase::AwaitFile { start, close, path, article } => start + 3 <= close && close + 3
                <= self.buf@.len(),
            _ => true,
        }
    }

    /// Which event the engine takes next: `Start` when scanning or finished,
    /// otherwise the outcome, in the owed shape, of the work it requested.
    pub open spec fn expects(&self, ev: Event) -> bool {
        match self.phase {
            Phase::Scanning => ev is Start,
            Phase::Finished => ev is Start,
            Phase::AwaitQuery { start, close, pat } => match ev {
                Event::Query(qr) => shape_ok(pat, qr),
                _ => false,
            },
            Phase::AwaitFile { start, close, path, article } => ev is File,
        }
    }

    /// A fresh engine over `buf`, ready to scan, allowed `fuel` expansions.
    pub fn new(buf: Vec<u8>, args: Vec<Vec<u8>>, fuel: usize) -> (r: Expander)
        ensures
            r.buf@ == buf@,
            r.args@ == args@,
            r.fuel == fuel,
            r.phase is Scanning,
            r.wf(),
    {
        Expander { buf, args, fuel, phase: Phase::Scanning }
    }

    /// One transition of the engine.
    pub fn step(&mut self, ev: Event) -> (r: Result<Request, Error>)
        requires
            old(self).wf(),
            old(self).expects(ev),
        ensures
            final(self).wf(),
            step_post(*old(self), ev, *final(self), r),
    {
        let mut ph = Phase::Scanning;
        core::mem::swap(&mut ph, &mut self.phase);
        match ph {
            Phase::Finished => {
                self.phase = Phase::Finished;
                Ok(Request::Done)
            },
            Phase::Scanning => self.scan_resume(),
            Phase::AwaitQuery { start, close, pat } => match ev {
                Event::Query(qr) => self.on_query(start, close, pat, qr),
                _ => {
                    proof {
                        assert(false);
                    }
                    Err(Error::LimitExceeded)
                },
            },
            Phase::AwaitFile { start, close, path, article } => match ev {
                Event::File(fr) => self.on_file(start, close, path, article, fr),
                _ => {
                    proof {
                        assert(false);
                    }
                    Err(Error::LimitExceeded)
                },
            },
        }
    }

    /// Scans for the next placeholder and issues its request.
    fn scan_resume(&mut self) -> (r: Result<Request, Error>)
        ensures
            final(self).wf(),
            scan_done(
                arg_views(old(self).args@),
                old(self).fuel,
                old(self).buf@,
                *final(self),
                r,
            ),
    {
        proof {
            lemma_scan_hit(self.buf@, 0);
        }
        match scan_next(&self.buf) {
            Err(e) => {
                self.phase = Phase::Finished;
                Err(e)
            },
            Ok(Option::None) => {
                self.phase = Phase::Finished;
                Ok(Request::Done)
            },
            Ok(Option::Some((start, close, pat))) => {
                let ghost p = self.buf@.subrange(start as int + 3, close as int);
                proof {
                    lemma_sigil_heads(p);
                }
                if self.fuel == 0 {
                    self.phase = Phase::Finished;
                    return Err(Error::LimitExceeded);
                }
                self.fuel = self.fuel - 1;
                match pat {
                    Pattern::Path(path) => {
                        let q = copy_bytes(&path);
                        self.phase = Phase::AwaitFile {
                            start,
                            close,
                            path,
                            article: None,
                        };
                        Ok(Request::NeedFile(q))
                    },
                    Pattern::Positional(n) => {
                        if n > self.args.len() {
                            self.phase = Phase::Finished;
                            return Err(Error::ArgumentOutOfRange(n));
                        }
                        let path = copy_bytes(&self.args[n - 1]);
                        let q = copy_bytes(&path);
                        self.phase = Phase::AwaitFile {
                            start,
                            close,
                            path,
                            article: None,
                        };
                        Ok(Request::NeedFile(q))
                    },
                    Pattern::ArticlePositional(n) => {
                        if n > self.args.len() {
                            self.phase = Phase::Finished;
                            return Err(Error::ArgumentOutOfRange(n));
                        }
                        let key = copy_bytes(&self.args[n - 1]);
                        self.phase = Phase::AwaitQuery {
                            start,
                            close,
                            pat: Pattern::ArticlePositional(n),
                        };
                        Ok(Request::NeedQuery(Query::OneByPath(key)))
                    },
                    Pattern::PreviewLatest(n) => {
                        self.phase = Phase::AwaitQuery {
                            start,
                            close,
                            pat: Pattern::PreviewLatest(n),
                        };
                        Ok(Request::NeedQuery(Query::AllOrdered))
                    },
                    Pattern::ArticleLatest(n) => {
                        self.phase = Phase::AwaitQuery {
                            start,
                            close,
                            pat: Pattern::ArticleLatest(n),
                        };
                        Ok(Request::NeedQuery(Query::AllOrdered))
                    },
                    Pattern::PreviewTitle(t) => {
                        let q = copy_bytes(&t);
                        self.phase = Phase::AwaitQuery {
                            start,
                            close,
                            pat: Pattern::PreviewTitle(t),
                        };
                        Ok(Request::NeedQuery(Query::OptByTitle(q)))
                    },
                    Pattern::ArticleTitle(t) => {
                        let q = copy_bytes(&t);
                        self.phase = Phase::AwaitQuery {
                            start,
                            close,
                            pat: Pattern::ArticleTitle(t),
                        };
                        Ok(Request::NeedQuery(Query::OneByTitle(q)))
                    },
                }
            },
        }
    }

    /// Splices `rep` over the span and scans on.
    fn splice_and_rescan(&mut self, start: usize, close: usize, rep: Vec<u8>) -> (r: Result<
        Request,
        Error,
    >)
        requires
            start + 3 <= close,
            close + 3 <= old(self).buf@.len(),
        ensures
            final(self).wf(),
            scan_done(
                arg_views(old(self).args@),
                old(self).fuel,
                spliced(old(self).buf@, start as int, close as int, rep@),
                *final(self),
                r,
            ),
    {
        splice(&mut self.buf, start, close, &rep);
        self.scan_resume()
    }

    /// Resolves a waiting placeholder with its query outcome.
    fn on_query(&mut self, start: usize, close: usize, pat: Pattern, qr: QueryResult) -> (r:
        Result<Request, Error>)
        requires
            start + 3 <= close,
            close + 3 <= old(self).buf@.len(),
            shape_ok(pat, qr),
        ensures
            final(self).wf(),
            query_step(*old(self), start, close, pat, qr, *final(self), r),
    {
        match qr {
            QueryResult::Failed(m) => {
                self.phase = Phase::Finished;
                Err(Error::Storage(m))
            },
            QueryResult::One(a) => {
                let q = copy_bytes(&a.path);
                let fp = copy_bytes(&a.path);
                self.phase = Phase::AwaitFile {
                    start,
                    close,
                    path: fp,
                    article: Some(a),
                };
                Ok(Request::NeedFile(q))
            },
            QueryResult::Opt(opt) => match opt {
                Option::Some(a) => {
                    let rep = format_preview(&a);
                    self.splice_and_rescan(start, close, rep)
                },
                Option::None => {
                    let rep: Vec<u8> = Vec::new();
                    self.splice_and_rescan(start, close, rep)
                },
            },
            QueryResult::All(rows) => {
                let n: usize = match &pat {
                    Pattern::PreviewLatest(n) => *n,
                    Pattern::ArticleLatest(n) => *n,
                    _ => {
                        proof {
                            assert(false);
                        }
                        0
                    },
                };
                if n >= 1 && n <= rows.len() {
                    match &pat {
                        Pattern::PreviewLatest(_) => {
                            let rep = format_preview(&rows[n - 1]);
                            self.splice_and_rescan(start, close, rep)
                        },
                        _ => {
                            let a = copy_article(&rows[n - 1]);
                            let q = copy_bytes(&a.path);
                            let fp = copy_bytes(&a.path);
                            self.phase = Phase::AwaitFile {
                                start,
                                close,
                                path: fp,
                                article: Some(a),
                            };
                            Ok(Request::NeedFile(q))
                        },
                    }
                } else {
                    let rep: Vec<u8> = Vec::new();
                    self.splice_and_rescan(start, close, rep)
                }
            },
        }
    }

    /// Resolves a waiting placeholder with its file outcome.
    fn on_file(
        &mut self,
        start: usize,
        close: usize,
        path: Vec<u8>,
        article: Option<Article>,
        fr: FileResult,
    ) -> (r: Result<Request, Error>)
        requires
            start + 3 <= close,
            close + 3 <= old(self).buf@.len(),
        ensures
            final(self).wf(),
            file_step(*old(self), start, close, path@, article, fr, *final(self), r),
    {
        match fr {
            FileResult::Invalid => {
                self.phase = Phase::Finished;
                Err(Error::InvalidPath(path))
            },
            FileResult::Missing => {
                self.phase = Phase::Finished;
                match &article {
                    Option::Some(_) => Err(Error::ResourceNotFound(path)),
                    Option::None => Err(Error::FileRead(path)),
                }
            },
            FileResult::Failed(m) => {
                self.phase = Phase::Finished;
                Err(Error::FileRead(m))
            },
            FileResult::Read { text, markup } => {
                let contents = if markup {
                    render_markdown(&text)
                } else {
                    text
                };
                let rep = match &article {
                    Option::Some(a) => format_full(a, &contents),
                    Option::None => contents,
                };
                self.splice_and_rescan(start, close, rep)
            },
        }
    }
}

/// A buffer with no opening delimiter scans to `NoMore` from anywhere.
proof fn lemma_no_open_scan_none(b: Seq<u8>, from: int)
    requires
        !has_open(b),
    ensures
        scan_spec(b, from) is NoMore,
{
    lemma_first_open_bounds(b, from);
    match first_open(b, from) {
        Option::None => {},
        Option::Some(i) => {
            assert(is_open_at(b, i));
            assert(has_open(b));
        },
    }
}

/// No placeholder, no work: over a buffer without an opening delimiter a
/// pass replies `Done` at once, requests no collaborator work, and hands the
/// buffer through unchanged.
pub proof fn lemma_no_open_no_op(
    args: Seq<Seq<u8>>,
    fuel: usize,
    b: Seq<u8>,
    post: Expander,
    r: Result<Request, Error>,
)
    requires
        !has_open(b),
        scan_done(args, fuel, b, post, r),
    ensures
        post.buf@ == b,
        replies_done(r),
        post.phase is Finished,
        post.fuel == fuel,
{
    lemma_no_open_scan_none(b, 0);
}

/// Idempotence: when a pass runs over a buffer without an opening delimiter,
/// a second pass over its output again finds nothing, replies `Done`, and
/// leaves the buffer equal to the original.
pub proof fn lemma_expand_idempotent(
    args1: Seq<Seq<u8>>,
    fuel1: usize,
    args2: Seq<Seq<u8>>,
    fuel2: usize,
    b: Seq<u8>,
    post1: Expander,
    r1: Result<Request, Error>,
    post2: Expander,
    r2: Result<Request, Error>,
)
    requires
        !has_open(b),
        scan_done(args1, fuel1, b, post1, r1),
        scan_done(args2, fuel2, post1.buf@, post2, r2),
    ensures
        post1.buf@ == b,
        post2.buf@ == b,
        replies_done(r1),
        replies_done(r2),
{
    lemma_no_open_no_op(args1, fuel1, b, post1, r1);
    lemma_no_open_no_op(args2, fuel2, post1.buf@, post2, r2);
}

/// A positional placeholder stands for the path placeholder naming the
/// argument it indexes: on payloads `%n` and `/args[n-1]` the engine issues
/// the same file request over the same span, waiting with no article wrap,
/// so the two placeholders resolve identically from there on.
pub proof fn lemma_positional_matches_path(
    args: Seq<Seq<u8>>,
    fuel: usize,
    start: int,
    close: int,
    p1: Seq<u8>,
    p2: Seq<u8>,
    post1: Expander,
    r1: Result<Request, Error>,
    post2: Expander,
    r2: Result<Request, Error>,
)
    requires
        p1.len() >= 1 && p1[0] == sig_positional(),
        valid_index(p1.skip(1)),
        digits_val(p1.skip(1)) <= args.len(),
        p2.len() >= 1 && p2[0] == sig_path(),
        p2.skip(1) == args[digits_val(p1.skip(1)) - 1],
        hit_post(args, fuel, start, close, p1, post1, r1),
        hit_post(args, fuel, start, close, p2, post2, r2),
    ensures
        file_wait(start, close, args[digits_val(p1.skip(1)) - 1], Option::None, post1, r1),
        file_wait(start, close, args[digits_val(p1.skip(1)) - 1], Option::None, post2, r2),
        post1.fuel == fuel,
        post2.fuel == fuel,
{
}

/// Ranked selection: when the date-ordered rows answer a ranked preview
/// placeholder whose rank `n` lies within them, the engine splices exactly
/// the preview of the row at position `n - 1` of that order.
pub proof fn lemma_ranked_preview_pick(
    pre: Expander,
    start: usize,
    close: usize,
    n: usize,
    rows: Vec<Article>,
    post: Expander,
    r: Result<Request, Error>,
)
    requires
        query_step(pre, start, close, Pattern::PreviewLatest(n), QueryResult::All(rows), post, r),
        1 <= n <= rows@.len(),
    ensures
        post.buf@ == spliced(
            pre.buf@,
            start as int,
            close as int,
            preview_markup(
                rows@[n - 1].path@,
                rows@[n - 1].title@,
                rows@[n - 1].date@,
                rows@[n - 1].author@,
            ),
        ),
{
}

} // verus!
