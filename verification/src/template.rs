//! Token substitution: expanding a command template with `{identifier}`
//! placeholders into a concrete command line.
//!
//! A placeholder is an opening brace, one or more identifier characters
//! (see [`is_ident_char_spec`]), and a closing brace. Scanning is a
//! single left-to-right pass over non-overlapping spans: the identifier
//! `file` expands to the selected path, any other identifier degrades to
//! the visible sentinel marker `-hu?-` instead of failing, and
//! replacement text is never rescanned. Text that does not form a
//! placeholder is copied unchanged.

use vstd::prelude::*;

use crate::strutil::is_ident_char;
use crate::strutil::is_ident_char_spec;
use crate::strutil::str_eq;

verus! {

/// First position at or after `i` holding a non-identifier character, or
/// the end of `t` when the identifier run reaches it.
pub open spec fn word_end(t: Seq<char>, i: int) -> int
    decreases t.len() - i,
{
    if i < 0 || i >= t.len() {
        i
    } else if is_ident_char_spec(t[i]) {
        word_end(t, i + 1)
    } else {
        i
    }
}

/// True when a complete placeholder starts at position `i` of `t`: an
/// opening brace, a non-empty identifier run, and a closing brace.
pub open spec fn placeholder_at(t: Seq<char>, i: int) -> bool {
    &&& 0 <= i < t.len()
    &&& t[i] == '{'
    &&& word_end(t, i + 1) > i + 1
    &&& word_end(t, i + 1) < t.len()
    &&& t[word_end(t, i + 1)] == '}'
}

/// What one placeholder expands to: the selected path for `file`, the
/// sentinel marker for every other identifier.
pub open spec fn replacement_spec(ident: Seq<char>, path: Seq<char>) -> Seq<char> {
    if ident == "file"@ {
        path
    } else {
        "-hu?-"@
    }
}

/// The substituted text of `t` from position `i` on: placeholders are
/// expanded by [`replacement_spec`], all other characters kept.
pub open spec fn subst_from(t: Seq<char>, path: Seq<char>, i: int) -> Seq<char>
    decreases t.len() - i,
{
    if i < 0 || i >= t.len() {
        Seq::empty()
    } else if placeholder_at(t, i) {
        let j = word_end(t, i + 1);
        replacement_spec(t.subrange(i + 1, j), path) + subst_from(t, path, j + 1)
    } else {
        seq![t[i]] + subst_from(t, path, i + 1)
    }
}

/// The fully substituted text of the template `t` against `path`.
pub open spec fn subst(t: Seq<char>, path: Seq<char>) -> Seq<char> {
    subst_from(t, path, 0)
}

/// Expand every placeholder of `template` against `path`, as [`subst`]
/// describes.
pub fn substitute(template: &str, path: &str) -> (out: String)
    ensures
        out@ == subst(template@, path@),
{
    let n = template.unicode_len();
    let mut out = String::new();
    let mut i: usize = 0;
    while i < n
        invariant
            n == template@.len(),
            i <= n,
            subst(template@, path@) == out@ + subst_from(template@, path@, i as int),
        decreases n - i,
    {
        let c = template.get_char(i);
        if c == '{' {
            let mut j = i + 1;
            while j < n && is_ident_char(template.get_char(j))
                invariant
                    n == template@.len(),
                    i < n,
                    i + 1 <= j <= n,
                    word_end(template@, i as int + 1) == word_end(template@, j as int),
                decreases n - j,
            {
                j = j + 1;
            }
            proof {
                assert(word_end(template@, j as int) == j as int);
            }
            if j > i + 1 && j < n && template.get_char(j) == '}' {
                let ghost prev = out@;
                let ident = template.substring_char(i + 1, j);
                if str_eq(ident, "file") {
                    out.append(path);
                } else {
                    out.append("-hu?-");
                }
                proof {
                    let t = template@;
                    let p = path@;
                    assert(placeholder_at(t, i as int));
                    assert(subst_from(t, p, i as int) == replacement_spec(
                        t.subrange(i as int + 1, j as int),
                        p,
                    ) + subst_from(t, p, j as int + 1));
                    assert(out@ == prev + replacement_spec(t.subrange(i as int + 1, j as int), p));
                    assert(prev + subst_from(t, p, i as int) =~= out@ + subst_from(
                        t,
                        p,
                        j as int + 1,
                    ));
                }
                i = j + 1;
            } else {
                let ghost prev = out@;
                let one = template.substring_char(i, i + 1);
                out.append(one);
                proof {
                    let t = template@;
                    let p = path@;
                    assert(!placeholder_at(t, i as int));
                    assert(out@ =~= prev + seq![t[i as int]]);
                    assert(prev + subst_from(t, p, i as int) =~= out@ + subst_from(
                        t,
                        p,
                        i as int + 1,
                    ));
                }
                i = i + 1;
            }
        } else {
            let ghost prev = out@;
            let one = template.substring_char(i, i + 1);
            out.append(one);
            proof {
                let t = template@;
                let p = path@;
                assert(!placeholder_at(t, i as int));
                assert(out@ =~= prev + seq![t[i as int]]);
                assert(prev + subst_from(t, p, i as int) =~= out@ + subst_from(t, p, i as int + 1));
            }
            i = i + 1;
        }
    }
    proof {
        assert(out@ + subst_from(template@, path@, n as int) =~= out@);
    }
    out
}

proof fn lemma_word_end_run(t: Seq<char>, i: int, j: int)
    requires
        0 <= i <= j <= t.len(),
        forall|k: int| i <= k < j ==> is_ident_char_spec(t[k]),
        j == t.len() || !is_ident_char_spec(t[j]),
    ensures
        word_end(t, i) == j,
    decreases j - i,
{
    if i < j {
        lemma_word_end_run(t, i + 1, j);
    }
}

proof fn lemma_word_end_shift(a: Seq<char>, b: Seq<char>, k: int)
    requires
        0 <= k,
    ensures
        word_end(a + b, a.len() + k) == a.len() + word_end(b, k),
    decreases b.len() - k,
{
    if k < b.len() && is_ident_char_spec(b[k]) {
        lemma_word_end_shift(a, b, k + 1);
    }
}

proof fn lemma_placeholder_shift(a: Seq<char>, b: Seq<char>, k: int)
    requires
        0 <= k,
    ensures
        placeholder_at(a + b, a.len() + k) == placeholder_at(b, k),
{
    lemma_word_end_shift(a, b, k + 1);
}

proof fn lemma_subst_shift(a: Seq<char>, b: Seq<char>, p: Seq<char>, k: int)
    requires
        0 <= k,
    ensures
        subst_from(a + b, p, a.len() + k) == subst_from(b, p, k),
    decreases b.len() - k,
{
    let t = a + b;
    if k < b.len() {
        lemma_placeholder_shift(a, b, k);
        if placeholder_at(b, k) {
            lemma_word_end_shift(a, b, k + 1);
            let j = word_end(b, k + 1);
            assert(t.subrange(a.len() + k + 1, a.len() + j) =~= b.subrange(k + 1, j));
            lemma_subst_shift(a, b, p, j + 1);
        } else {
            lemma_subst_shift(a, b, p, k + 1);
            assert(seq![t[a.len() + k]] =~= seq![b[k]]);
        }
    }
}

proof fn lemma_subst_from_literal(a: Seq<char>, b: Seq<char>, p: Seq<char>, i: int)
    requires
        0 <= i <= a.len(),
        forall|k: int| i <= k < a.len() ==> a[k] != '{',
    ensures
        subst_from(a + b, p, i) == a.subrange(i, a.len() as int) + subst(b, p),
    decreases a.len() - i,
{
    let t = a + b;
    if i == a.len() {
        lemma_subst_shift(a, b, p, 0);
        assert(a.subrange(i, i) + subst(b, p) =~= subst(b, p));
    } else {
        assert(!placeholder_at(t, i));
        lemma_subst_from_literal(a, b, p, i + 1);
        assert(seq![t[i]] + (a.subrange(i + 1, a.len() as int) + subst(b, p)) =~= a.subrange(
            i,
            a.len() as int,
        ) + subst(b, p));
    }
}

/// Characters outside a placeholder span are never altered: a template
/// that starts with brace-free text keeps that text verbatim, and
/// substitution continues independently on the rest.
pub proof fn lemma_subst_literal_prefix(a: Seq<char>, b: Seq<char>, p: Seq<char>)
    requires
        forall|k: int| 0 <= k < a.len() ==> a[k] != '{',
    ensures
        subst(a + b, p) == a + subst(b, p),
{
    lemma_subst_from_literal(a, b, p, 0);
    assert(a.subrange(0, a.len() as int) =~= a);
}

/// Every `{file}` placeholder expands to the selected path itself, and
/// the brace-free text before it is kept verbatim.
pub proof fn lemma_subst_file(a: Seq<char>, b: Seq<char>, p: Seq<char>)
    requires
        forall|k: int| 0 <= k < a.len() ==> a[k] != '{',
    ensures
        subst(a + "{file}"@ + b, p) == a + p + subst(b, p),
{
    reveal_strlit("{file}");
    reveal_strlit("file");
    let ph = "{file}"@;
    let t0 = ph + b;
    assert(forall|k: int| 1 <= k < 5 ==> is_ident_char_spec(t0[k]));
    lemma_word_end_run(t0, 1, 5);
    assert(placeholder_at(t0, 0));
    assert(t0.subrange(1, 5) =~= "file"@);
    lemma_subst_shift(ph, b, p, 0);
    lemma_subst_literal_prefix(a, t0, p);
    assert(a + ph + b =~= a + (ph + b));
    assert(a + p + subst(b, p) =~= a + (p + subst(b, p)));
}

/// A placeholder whose identifier is anything but `file` expands to the
/// visible sentinel marker `-hu?-`, never to an error: substitution
/// degrades silently on unknown identifiers.
pub proof fn lemma_subst_unknown(a: Seq<char>, ident: Seq<char>, b: Seq<char>, p: Seq<char>)
    requires
        forall|k: int| 0 <= k < a.len() ==> a[k] != '{',
        ident.len() > 0,
        forall|k: int| 0 <= k < ident.len() ==> is_ident_char_spec(ident[k]),
        ident != "file"@,
    ensures
        subst(a + (seq!['{'] + ident + seq!['}']) + b, p) == a + "-hu?-"@ + subst(b, p),
{
    let ph = seq!['{'] + ident + seq!['}'];
    let t0 = ph + b;
    let len = ident.len() as int;
    assert(forall|k: int| 1 <= k < 1 + len ==> is_ident_char_spec(t0[k]));
    assert(t0[1 + len] == '}');
    lemma_word_end_run(t0, 1, 1 + len);
    assert(placeholder_at(t0, 0));
    assert(t0.subrange(1, 1 + len) =~= ident);
    lemma_subst_shift(ph, b, p, 0);
    lemma_subst_literal_prefix(a, t0, p);
    assert(a + ph + b =~= a + (ph + b));
    assert(a + "-hu?-"@ + subst(b, p) =~= a + ("-hu?-"@ + subst(b, p)));
}

/// Two non-overlapping placeholders expand independently, each in its
/// own place: a `{file}` placeholder and a later unknown one yield the
/// path and the sentinel marker, with all surrounding text kept.
pub proof fn lemma_subst_two_placeholders(
    a: Seq<char>,
    b: Seq<char>,
    ident: Seq<char>,
    c: Seq<char>,
    p: Seq<char>,
)
    requires
        forall|k: int| 0 <= k < a.len() ==> a[k] != '{',
        forall|k: int| 0 <= k < b.len() ==> b[k] != '{',
        ident.len() > 0,
        forall|k: int| 0 <= k < ident.len() ==> is_ident_char_spec(ident[k]),
        ident != "file"@,
    ensures
        subst(a + "{file}"@ + b + (seq!['{'] + ident + seq!['}']) + c, p) == a + p + b + "-hu?-"@
            + subst(c, p),
{
    let ph = seq!['{'] + ident + seq!['}'];
    let tail = b + ph + c;
    lemma_subst_file(a, tail, p);
    lemma_subst_unknown(b, ident, c, p);
    assert(a + "{file}"@ + b + ph + c =~= a + "{file}"@ + tail);
    assert(a + p + b + "-hu?-"@ + subst(c, p) =~= a + p + (b + "-hu?-"@ + subst(c, p)));
}

} // verus!
