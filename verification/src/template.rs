//! Placeholder-template renderer: substitutes the fixed set of named
//! placeholders into arbitrary text.  An occurrence of a placeholder with
//! no bound value renders as the empty string; unknown placeholder-like
//! text is left untouched.

use vstd::prelude::*;
use vstd::string::StrSliceExecFns;
use crate::version::chars_to_string;
use crate::version::push_str_chars;

verus! {

/// The pattern stands at position `i` of `s`.
pub open spec fn contains_at(s: Seq<char>, pat: Seq<char>, i: int) -> bool {
    0 <= i && i + pat.len() <= s.len() && s.subrange(i, i + pat.len() as int) == pat
}

/// The pattern stands somewhere in `s`.
pub open spec fn contains(s: Seq<char>, pat: Seq<char>) -> bool {
    exists|i: int| contains_at(s, pat, i)
}

/// Leftmost, non-overlapping replacement of every occurrence of `pat` in
/// `text` by `val`; an empty pattern replaces nothing.
pub open spec fn replace_all_spec(text: Seq<char>, pat: Seq<char>, val: Seq<char>) -> Seq<char>
    decreases text.len(),
{
    if pat.len() == 0 || text.len() < pat.len() {
        text
    } else if text.subrange(0, pat.len() as int) == pat {
        val + replace_all_spec(text.skip(pat.len() as int), pat, val)
    } else {
        seq![text[0]] + replace_all_spec(text.skip(1), pat, val)
    }
}

/// Replacing a pattern that does not occur leaves the text unchanged.
pub proof fn lemma_replace_all_absent(text: Seq<char>, pat: Seq<char>, val: Seq<char>)
    requires
        !contains(text, pat),
    ensures
        replace_all_spec(text, pat, val) == text,
    decreases text.len(),
{
    if pat.len() == 0 || text.len() < pat.len() {
    } else {
        assert(!contains_at(text, pat, 0));
        assert forall|i: int| !contains_at(text.skip(1), pat, i) by {
            if contains_at(text.skip(1), pat, i) {
                assert(text.skip(1).subrange(i, i + pat.len() as int) =~= text.subrange(
                    i + 1,
                    i + 1 + pat.len() as int,
                ));
                assert(contains_at(text, pat, i + 1));
            }
        }
        lemma_replace_all_absent(text.skip(1), pat, val);
        assert(seq![text[0]] + text.skip(1) =~= text);
    }
}

/// Whether the pattern stands at position `i` of `s`.
fn match_at(s: &str, slen: usize, i: usize, pat: &str, plen: usize) -> (r: bool)
    requires
        slen == s@.len(),
        plen == pat@.len(),
        i <= slen,
    ensures
        r == contains_at(s@, pat@, i as int),
{
    if plen > slen - i {
        assert(!contains_at(s@, pat@, i as int));
        return false;
    }
    let mut j: usize = 0;
    while j < plen
        invariant
            j <= plen,
            i + plen <= slen,
            slen == s@.len(),
            plen == pat@.len(),
            forall|k: int| 0 <= k < j ==> s@[i + k] == #[trigger] pat@[k],
        decreases plen - j,
    {
        let cs = s.get_char(i + j);
        let cp = pat.get_char(j);
        if cs != cp {
            proof {
                assert(s@.subrange(i as int, i + plen as int)[j as int] == s@[i + j]);
            }
            return false;
        }
        j = j + 1;
    }
    proof {
        assert(s@.subrange(i as int, i + plen as int) =~= pat@);
    }
    true
}

/// Replaces every occurrence of `pat` in `text` by `val`, leftmost first,
/// non-overlapping.
pub fn replace_all(text: &str, pat: &str, val: &str) -> (r: String)
    ensures
        r@ == replace_all_spec(text@, pat@, val@),
{
    let tlen = text.unicode_len();
    let plen = pat.unicode_len();
    if plen == 0 {
        return text.to_owned();
    }
    let mut out: Vec<char> = Vec::new();
    let mut i: usize = 0;
    proof {
        assert(text@.skip(0) =~= text@);
    }
    while i < tlen
        invariant
            i <= tlen,
            tlen == text@.len(),
            plen == pat@.len(),
            plen > 0,
            replace_all_spec(text@, pat@, val@) == out@ + replace_all_spec(
                text@.skip(i as int),
                pat@,
                val@,
            ),
        decreases tlen - i,
    {
        let ghost rest = text@.skip(i as int);
        if match_at(text, tlen, i, pat, plen) {
            push_str_chars(&mut out, val);
            proof {
                assert(rest.len() >= plen);
                assert(rest.subrange(0, plen as int) =~= text@.subrange(i as int, i + plen));
                assert(rest.skip(plen as int) =~= text@.skip(i + plen));
                assert(replace_all_spec(rest, pat@, val@) == val@ + replace_all_spec(
                    text@.skip(i + plen),
                    pat@,
                    val@,
                ));
            }
            i = i + plen;
        } else {
            out.push(text.get_char(i));
            proof {
                if rest.len() >= plen {
                    assert(rest.subrange(0, plen as int) =~= text@.subrange(i as int, i + plen));
                    assert(rest.subrange(0, plen as int) != pat@);
                }
                assert(rest.skip(1) =~= text@.skip(i as int + 1));
                assert(rest =~= seq![text@[i as int]] + text@.skip(i as int + 1));
            }
            i = i + 1;
        }
    }
    proof {
        assert(text@.skip(i as int).len() == 0);
    }
    chars_to_string(&out)
}

/// A template: the fixed set of named placeholders, each optionally bound.
#[derive(Debug)]
pub struct Template {
    pub prev_version: Option<String>,
    pub prev_metadata: Option<String>,
    pub version: Option<String>,
    pub metadata: Option<String>,
    pub crate_name: Option<String>,
    pub date: Option<String>,
    pub tag_name: Option<String>,
    pub next_version: Option<String>,
    pub next_metadata: Option<String>,
}

/// The characters a binding contributes: its value, or nothing.
pub open spec fn bound(o: Option<String>) -> Seq<char> {
    match o {
        Some(s) => s@,
        None => Seq::<char>::empty(),
    }
}

/// One rendering pass: every placeholder token replaced by its binding,
/// in the fixed field order.
pub open spec fn render_spec(t: Template, s: Seq<char>) -> Seq<char> {
    let s1 = replace_all_spec(s, "{{prev_version}}"@, bound(t.prev_version));
    let s2 = replace_all_spec(s1, "{{prev_metadata}}"@, bound(t.prev_metadata));
    let s3 = replace_all_spec(s2, "{{version}}"@, bound(t.version));
    let s4 = replace_all_spec(s3, "{{metadata}}"@, bound(t.metadata));
    let s5 = replace_all_spec(s4, "{{crate_name}}"@, bound(t.crate_name));
    let s6 = replace_all_spec(s5, "{{date}}"@, bound(t.date));
    let s7 = replace_all_spec(s6, "{{tag_name}}"@, bound(t.tag_name));
    let s8 = replace_all_spec(s7, "{{next_version}}"@, bound(t.next_version));
    replace_all_spec(s8, "{{next_metadata}}"@, bound(t.next_metadata))
}

/// No known placeholder token stands in `s`.
pub open spec fn token_free(s: Seq<char>) -> bool {
    &&& !contains(s, "{{prev_version}}"@)
    &&& !contains(s, "{{prev_metadata}}"@)
    &&& !contains(s, "{{version}}"@)
    &&& !contains(s, "{{metadata}}"@)
    &&& !contains(s, "{{crate_name}}"@)
    &&& !contains(s, "{{date}}"@)
    &&& !contains(s, "{{tag_name}}"@)
    &&& !contains(s, "{{next_version}}"@)
    &&& !contains(s, "{{next_metadata}}"@)
}

/// Law: rendering is idempotent on text whose rendering holds no known
/// placeholder any more — in particular, a second rendering pass leaves
/// all non-placeholder text unchanged.
pub proof fn lemma_render_idempotent(t: Template, s: Seq<char>)
    requires
        token_free(render_spec(t, s)),
    ensures
        render_spec(t, render_spec(t, s)) == render_spec(t, s),
{
    let r = render_spec(t, s);
    lemma_replace_all_absent(r, "{{prev_version}}"@, bound(t.prev_version));
    lemma_replace_all_absent(r, "{{prev_metadata}}"@, bound(t.prev_metadata));
    lemma_replace_all_absent(r, "{{version}}"@, bound(t.version));
    lemma_replace_all_absent(r, "{{metadata}}"@, bound(t.metadata));
    lemma_replace_all_absent(r, "{{crate_name}}"@, bound(t.crate_name));
    lemma_replace_all_absent(r, "{{date}}"@, bound(t.date));
    lemma_replace_all_absent(r, "{{tag_name}}"@, bound(t.tag_name));
    lemma_replace_all_absent(r, "{{next_version}}"@, bound(t.next_version));
    lemma_replace_all_absent(r, "{{next_metadata}}"@, bound(t.next_metadata));
}

/// A piece of text that holds no known token renders to itself.
pub proof fn lemma_render_token_free_identity(t: Template, s: Seq<char>)
    requires
        token_free(s),
    ensures
        render_spec(t, s) == s,
{
    lemma_replace_all_absent(s, "{{prev_version}}"@, bound(t.prev_version));
    lemma_replace_all_absent(s, "{{prev_metadata}}"@, bound(t.prev_metadata));
    lemma_replace_all_absent(s, "{{version}}"@, bound(t.version));
    lemma_replace_all_absent(s, "{{metadata}}"@, bound(t.metadata));
    lemma_replace_all_absent(s, "{{crate_name}}"@, bound(t.crate_name));
    lemma_replace_all_absent(s, "{{date}}"@, bound(t.date));
    lemma_replace_all_absent(s, "{{tag_name}}"@, bound(t.tag_name));
    lemma_replace_all_absent(s, "{{next_version}}"@, bound(t.next_version));
    lemma_replace_all_absent(s, "{{next_metadata}}"@, bound(t.next_metadata));
}

impl Default for Template {
    /// The empty template: no placeholder bound.
    fn default() -> (r: Self)
        ensures
            r.prev_version is None,
            r.prev_metadata is None,
            r.version is None,
            r.metadata is None,
            r.crate_name is None,
            r.date is None,
            r.tag_name is None,
            r.next_version is None,
            r.next_metadata is None,
    {
        Template {
            prev_version: None,
            prev_metadata: None,
            version: None,
            metadata: None,
            crate_name: None,
            date: None,
            tag_name: None,
            next_version: None,
            next_metadata: None,
        }
    }
}

fn binding_str(o: &Option<String>) -> (r: &str)
    ensures
        r@ == bound(*o),
{
    proof {
        reveal_strlit("");
    }
    match o {
        Some(s) => s.as_str(),
        None => "",
    }
}

impl Template {
    /// Renders the input: every occurrence of a known placeholder token is
    /// replaced by its bound value, or by nothing where the placeholder is
    /// unbound; all other text is kept.
    pub fn render(&self, input: &str) -> (r: String)
        ensures
            r@ == render_spec(*self, input@),
    {
        let s1 = replace_all(input, "{{prev_version}}", binding_str(&self.prev_version));
        let s2 = replace_all(s1.as_str(), "{{prev_metadata}}", binding_str(&self.prev_metadata));
        let s3 = replace_all(s2.as_str(), "{{version}}", binding_str(&self.version));
        let s4 = replace_all(s3.as_str(), "{{metadata}}", binding_str(&self.metadata));
        let s5 = replace_all(s4.as_str(), "{{crate_name}}", binding_str(&self.crate_name));
        let s6 = replace_all(s5.as_str(), "{{date}}", binding_str(&self.date));
        let s7 = replace_all(s6.as_str(), "{{tag_name}}", binding_str(&self.tag_name));
        let s8 = replace_all(s7.as_str(), "{{next_version}}", binding_str(&self.next_version));
        replace_all(s8.as_str(), "{{next_metadata}}", binding_str(&self.next_metadata))
    }
}

} // verus!
