//! Classifying the text between a placeholder's delimiters.

use vstd::prelude::*;
use crate::errors::Error;

verus! {

/// The closed set of placeholder variants, selected by a fixed sigil prefix
/// of the payload between the delimiters.
pub enum Pattern {
    /// `/` followed by an explicit document-relative file path.
    Path(Vec<u8>),
    /// `%` followed by a 1-based index into the argument list, read as a path.
    Positional(usize),
    /// `article%` followed by a 1-based argument index, read as an article key.
    ArticlePositional(usize),
    /// `preview~` followed by a 1-based rank by ascending creation date.
    PreviewLatest(usize),
    /// `article~` followed by a 1-based rank by ascending creation date.
    ArticleLatest(usize),
    /// `preview ` followed by an exact title.
    PreviewTitle(Vec<u8>),
    /// `article ` followed by an exact title.
    ArticleTitle(Vec<u8>),
}

/// The byte of `/`.
pub open spec fn sig_path() -> u8 {
    47u8
}

/// The byte of `%`.
pub open spec fn sig_positional() -> u8 {
    37u8
}

/// The bytes of `article%`.
pub open spec fn sig_article_positional() -> Seq<u8> {
    seq![97u8, 114u8, 116u8, 105u8, 99u8, 108u8, 101u8, 37u8]
}

/// The bytes of `preview~`.
pub open spec fn sig_preview_latest() -> Seq<u8> {
    seq![112u8, 114u8, 101u8, 118u8, 105u8, 101u8, 119u8, 126u8]
}

/// The bytes of `article~`.
pub open spec fn sig_article_latest() -> Seq<u8> {
    seq![97u8, 114u8, 116u8, 105u8, 99u8, 108u8, 101u8, 126u8]
}

/// The bytes of `preview `.
pub open spec fn sig_preview_title() -> Seq<u8> {
    seq![112u8, 114u8, 101u8, 118u8, 105u8, 101u8, 119u8, 32u8]
}

/// The bytes of `article `.
pub open spec fn sig_article_title() -> Seq<u8> {
    seq![97u8, 114u8, 116u8, 105u8, 99u8, 108u8, 101u8, 32u8]
}

pub open spec fn has_prefix(s: Seq<u8>, p: Seq<u8>) -> bool {
    &&& p.len() <= s.len()
    &&& forall|i: int| 0 <= i < p.len() ==> s[i] == #[trigger] p[i]
}

pub open spec fn is_digit(b: u8) -> bool {
    48 <= b && b <= 57
}

pub open spec fn all_digits(s: Seq<u8>) -> bool {
    forall|i: int| 0 <= i < s.len() ==> is_digit(#[trigger] s[i])
}

/// The integer that a string of decimal digits denotes.
pub open spec fn digits_val(s: Seq<u8>) -> int
    decreases s.len(),
{
    if s.len() == 0 {
        0
    } else {
        10 * digits_val(s.drop_last()) + (s.last() - 48)
    }
}

/// True when `s` denotes a positive integer that a `usize` can hold.
pub open spec fn valid_index(s: Seq<u8>) -> bool {
    &&& s.len() >= 1
    &&& all_digits(s)
    &&& 1 <= digits_val(s)
    &&& digits_val(s) <= usize::MAX as int
}

/// True when some sigil prefix selects a variant for payload `s`.
pub open spec fn sigiled(s: Seq<u8>) -> bool {
    ||| s.len() >= 1 && s[0] == sig_path()
    ||| s.len() >= 1 && s[0] == sig_positional()
    ||| has_prefix(s, sig_article_positional())
    ||| has_prefix(s, sig_preview_latest())
    ||| has_prefix(s, sig_article_latest())
    ||| has_prefix(s, sig_preview_title())
    ||| has_prefix(s, sig_article_title())
}

/// True unless a numeric sigil selects `s` and its suffix is not a positive
/// integer in range.
pub open spec fn numeric_ok(s: Seq<u8>) -> bool {
    &&& (s.len() >= 1 && s[0] == sig_positional() ==> valid_index(s.skip(1)))
    &&& (has_prefix(s, sig_article_positional()) ==> valid_index(s.skip(8)))
    &&& (has_prefix(s, sig_preview_latest()) ==> valid_index(s.skip(8)))
    &&& (has_prefix(s, sig_article_latest()) ==> valid_index(s.skip(8)))
}

/// The variant that payload `s` selects, and the payload data it carries.
pub open spec fn pattern_matches(s: Seq<u8>, pat: Pattern) -> bool {
    match pat {
        Pattern::Path(p) => s.len() >= 1 && s[0] == sig_path() && p@ == s.skip(1),
        Pattern::Positional(n) => s.len() >= 1 && s[0] == sig_positional() && valid_index(s.skip(1))
            && n as int == digits_val(s.skip(1)),
        Pattern::ArticlePositional(n) => has_prefix(s, sig_article_positional()) && valid_index(
            s.skip(8),
        ) && n as int == digits_val(s.skip(8)),
        Pattern::PreviewLatest(n) => has_prefix(s, sig_preview_latest()) && valid_index(s.skip(8))
            && n as int == digits_val(s.skip(8)),
        Pattern::ArticleLatest(n) => has_prefix(s, sig_article_latest()) && valid_index(s.skip(8))
            && n as int == digits_val(s.skip(8)),
        Pattern::PreviewTitle(t) => has_prefix(s, sig_preview_title()) && t@ == s.skip(8),
        Pattern::ArticleTitle(t) => has_prefix(s, sig_article_title()) && t@ == s.skip(8),
    }
}

proof fn lemma_digits_val_nonneg(s: Seq<u8>)
    requires
        all_digits(s),
    ensures
        digits_val(s) >= 0,
    decreases s.len(),
{
    if s.len() > 0 {
        assert(all_digits(s.drop_last()));
        lemma_digits_val_nonneg(s.drop_last());
    }
}

/// A digit string denotes at least as much as any of its prefixes.
proof fn lemma_digits_val_take(s: Seq<u8>, i: int)
    requires
        all_digits(s),
        0 <= i <= s.len(),
    ensures
        digits_val(s.take(i)) <= digits_val(s),
    decreases s.len(),
{
    if i == s.len() {
        assert(s.take(i) =~= s);
    } else {
        let d = s.drop_last();
        assert(all_digits(d));
        assert(s.take(i) =~= d.take(i));
        lemma_digits_val_take(d, i);
        lemma_digits_val_nonneg(d);
        assert(digits_val(s) == 10 * digits_val(d) + (s.last() - 48));
        assert(digits_val(d) <= digits_val(s));
    }
}

/// Reads the digit suffix `p[k..]` as a positive integer, or reports that it
/// is not one.
pub fn parse_index_from(p: &Vec<u8>, k: usize) -> (r: Option<usize>)
    requires
        k <= p@.len(),
    ensures
        match r {
            Some(n) => valid_index(p@.skip(k as int)) && n as int == digits_val(
                p@.skip(k as int),
            ),
            None => !valid_index(p@.skip(k as int)),
        },
{
    let ghost s = p@.skip(k as int);
    let n = p.len();
    if k == n {
        return None;
    }
    let mut i = k;
    let mut acc: usize = 0;
    while i < n
        invariant
            k <= i <= n,
            n == p@.len(),
            s == p@.skip(k as int),
            all_digits(s.take(i - k)),
            acc as int == digits_val(s.take(i - k)),
        decreases n - i,
    {
        let b = p[i];
        if b < 48 || b > 57 {
            assert(s[i - k] == b);
            assert(!all_digits(s));
            return None;
        }
        let d = (b - 48) as usize;
        if acc > (usize::MAX - d) / 10 {
            proof {
                assert(10 * acc + d > usize::MAX as int) by (nonlinear_arith)
                    requires
                        acc > (usize::MAX - d) / 10,
                        0 <= d <= 9,
                ;
                assert(s.take(i + 1 - k).drop_last() =~= s.take(i - k));
                assert(s.take(i + 1 - k).last() == b);
                assert(digits_val(s.take(i + 1 - k)) == 10 * acc + d);
                if all_digits(s) {
                    lemma_digits_val_take(s, i + 1 - k);
                    assert(digits_val(s) > usize::MAX as int);
                }
            }
            return None;
        }
        proof {
            assert(s.take(i + 1 - k).drop_last() =~= s.take(i - k));
            assert(s.take(i + 1 - k).last() == b);
            assert(is_digit(s.take(i + 1 - k)[i - k]));
            assert(all_digits(s.take(i + 1 - k)));
        }
        acc = acc * 10 + d;
        i = i + 1;
    }
    assert(s.take(i - k) =~= s);
    if acc == 0 {
        None
    } else {
        Some(acc)
    }
}

/// A fresh copy of the suffix `p[k..]`.
pub fn tail_from(p: &Vec<u8>, k: usize) -> (r: Vec<u8>)
    requires
        k <= p@.len(),
    ensures
        r@ == p@.skip(k as int),
{
    let mut r: Vec<u8> = Vec::new();
    let n = p.len();
    let mut i = k;
    while i < n
        invariant
            k <= i <= n,
            n == p@.len(),
            r@ =~= p@.subrange(k as int, i as int),
        decreases n - i,
    {
        r.push(p[i]);
        i = i + 1;
    }
    assert(p@.subrange(k as int, n as int) =~= p@.skip(k as int));
    r
}

/// Classifies a payload: `Ok(Some)` is a recognized pattern, `Ok(None)` an
/// unrecognized one (no sigil matches), and `Err` a recognized numeric sigil
/// whose suffix is not a positive integer.
pub fn parse_payload(p: &Vec<u8>) -> (r: Result<Option<Pattern>, Error>)
    ensures
        match r {
            Ok(Some(pat)) => pattern_matches(p@, pat) && sigiled(p@) && numeric_ok(p@),
            Ok(None) => !sigiled(p@),
            Err(e) => e is MalformedNumber && sigiled(p@) && !numeric_ok(p@),
        },
{
    proof {
        assert(word_of(97).push(37) =~= sig_article_positional());
        assert(word_of(112).push(126) =~= sig_preview_latest());
        assert(word_of(97).push(126) =~= sig_article_latest());
        assert(word_of(112).push(32) =~= sig_preview_title());
        assert(word_of(97).push(32) =~= sig_article_title());
        lemma_sigil_heads(p@);
    }
    if p.len() >= 1 && p[0] == 47 {
        Ok(Some(Pattern::Path(tail_from(p, 1))))
    } else if p.len() >= 1 && p[0] == 37 {
        match parse_index_from(p, 1) {
            Some(n) => Ok(Some(Pattern::Positional(n))),
            None => Err(Error::MalformedNumber),
        }
    } else if prefix_matches(p, 97, 37) {
        match parse_index_from(p, 8) {
            Some(n) => Ok(Some(Pattern::ArticlePositional(n))),
            None => Err(Error::MalformedNumber),
        }
    } else if prefix_matches(p, 112, 126) {
        match parse_index_from(p, 8) {
            Some(n) => Ok(Some(Pattern::PreviewLatest(n))),
            None => Err(Error::MalformedNumber),
        }
    } else if prefix_matches(p, 97, 126) {
        match parse_index_from(p, 8) {
            Some(n) => Ok(Some(Pattern::ArticleLatest(n))),
            None => Err(Error::MalformedNumber),
        }
    } else if prefix_matches(p, 112, 32) {
        Ok(Some(Pattern::PreviewTitle(tail_from(p, 8))))
    } else if prefix_matches(p, 97, 32) {
        Ok(Some(Pattern::ArticleTitle(tail_from(p, 8))))
    } else {
        proof {
            lemma_unmatched(p@);
        }
        Ok(None)
    }
}

/// The eight-byte sigils share the shape `article<x>` or `preview<x>`: the
/// first byte picks the word, the eighth the variant.
pub open spec fn word_of(first: u8) -> Seq<u8> {
    if first == 97 {
        seq![97u8, 114u8, 116u8, 105u8, 99u8, 108u8, 101u8]
    } else {
        seq![112u8, 114u8, 101u8, 118u8, 105u8, 101u8, 119u8]
    }
}

/// Compares `p`'s first eight bytes against the sigil whose word starts with
/// `first` and whose variant byte is `last`.
fn prefix_matches(p: &Vec<u8>, first: u8, last: u8) -> (r: bool)
    requires
        first == 97 || first == 112,
    ensures
        r == has_prefix(p@, word_of(first).push(last)),
{
    let ghost sig = word_of(first).push(last);
    assert(sig.len() == 8);
    if p.len() < 8 {
        return false;
    }
    let word_ok = if first == 97 {
        p[0] == 97 && p[1] == 114 && p[2] == 116 && p[3] == 105 && p[4] == 99 && p[5] == 108
            && p[6] == 101
    } else {
        p[0] == 112 && p[1] == 114 && p[2] == 101 && p[3] == 118 && p[4] == 105 && p[5] == 101
            && p[6] == 119
    };
    let r = word_ok && p[7] == last;
    proof {
        if r {
            assert forall|j: int| 0 <= j < 8 implies p@[j] == #[trigger] sig[j] by {
                assert(sig[7] == last);
                if j < 7 {
                    assert(sig[j] == word_of(first)[j]);
                }
            }
        } else {
            if has_prefix(p@, sig) {
                assert(p@[0] == sig[0]);
                assert(p@[1] == sig[1]);
                assert(p@[2] == sig[2]);
                assert(p@[3] == sig[3]);
                assert(p@[4] == sig[4]);
                assert(p@[5] == sig[5]);
                assert(p@[6] == sig[6]);
                assert(p@[7] == sig[7]);
            }
        }
    }
    r
}

/// Each eight-byte sigil pins the payload's first and eighth byte, which is
/// what makes the seven sigils pairwise exclusive.
pub proof fn lemma_sigil_heads(s: Seq<u8>)
    ensures
        has_prefix(s, sig_article_positional()) ==> s.len() >= 8 && s[0] == 97 && s[7] == 37,
        has_prefix(s, sig_preview_latest()) ==> s.len() >= 8 && s[0] == 112 && s[7] == 126,
        has_prefix(s, sig_article_latest()) ==> s.len() >= 8 && s[0] == 97 && s[7] == 126,
        has_prefix(s, sig_preview_title()) ==> s.len() >= 8 && s[0] == 112 && s[7] == 32,
        has_prefix(s, sig_article_title()) ==> s.len() >= 8 && s[0] == 97 && s[7] == 32,
{
    if has_prefix(s, sig_article_positional()) {
        assert(s[0] == sig_article_positional()[0]);
        assert(s[7] == sig_article_positional()[7]);
    }
    if has_prefix(s, sig_preview_latest()) {
        assert(s[0] == sig_preview_latest()[0]);
        assert(s[7] == sig_preview_latest()[7]);
    }
    if has_prefix(s, sig_article_latest()) {
        assert(s[0] == sig_article_latest()[0]);
        assert(s[7] == sig_article_latest()[7]);
    }
    if has_prefix(s, sig_preview_title()) {
        assert(s[0] == sig_preview_title()[0]);
        assert(s[7] == sig_preview_title()[7]);
    }
    if has_prefix(s, sig_article_title()) {
        assert(s[0] == sig_article_title()[0]);
        assert(s[7] == sig_article_title()[7]);
    }
}

/// A payload whose head matches no sigil shape is unrecognized.
proof fn lemma_unmatched(s: Seq<u8>)
    requires
        !(s.len() >= 1 && s[0] == 47),
        !(s.len() >= 1 && s[0] == 37),
        !has_prefix(s, word_of(97).push(37)),
        !has_prefix(s, word_of(112).push(126)),
        !has_prefix(s, word_of(97).push(126)),
        !has_prefix(s, word_of(112).push(32)),
        !has_prefix(s, word_of(97).push(32)),
    ensures
        !sigiled(s),
{
    assert(word_of(97).push(37) =~= sig_article_positional());
    assert(word_of(112).push(126) =~= sig_preview_latest());
    assert(word_of(97).push(126) =~= sig_article_latest());
    assert(word_of(112).push(32) =~= sig_preview_title());
    assert(word_of(97).push(32) =~= sig_article_title());
}

} // verus!
