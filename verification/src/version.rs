//! Semantic-version model: an immutable version value with total
//! semantic-version ordering (prerelease precedence included), the
//! supported prerelease grammar (`pre` / `dev` / `alpha.1` style), release
//! levels, and rendering to bare and full version strings.

use vstd::prelude::*;
use vstd::string::StrSliceExecFns;
use vstd::string::StringExecFns;
use crate::error::FatalError;

verus! {

/// A prerelease identifier in the supported grammar: a lowercase
/// alphabetic word, optionally followed by `.` and a number.
#[derive(Debug)]
pub struct Prerelease {
    pub id: String,
    pub num: Option<u64>,
}

/// A semantic version; `build` is the build metadata (empty when absent),
/// which never takes part in ordering.
#[derive(Debug)]
pub struct Version {
    pub major: u64,
    pub minor: u64,
    pub patch: u64,
    pub pre: Option<Prerelease>,
    pub build: String,
}

/// A bump level: the only supported level keywords.
#[derive(PartialEq, Eq, Structural, Clone, Copy, Debug)]
pub enum BumpLevel {
    Major,
    Minor,
    Patch,
}

/// What the operator asked for: a relative bump or an explicit version.
#[derive(Debug)]
pub enum TargetVersion {
    Relative(BumpLevel),
    Absolute(Version),
}

/// A nonempty lowercase alphabetic word: the shape of a prerelease id.
pub open spec fn is_pre_id(s: Seq<char>) -> bool {
    s.len() > 0 && forall|i: int| 0 <= i < s.len() ==> 'a' <= #[trigger] s[i] <= 'z'
}

/// A decimal numeral without leading zeros.
pub open spec fn is_numeral(s: Seq<char>) -> bool {
    s.len() > 0 && (forall|i: int| 0 <= i < s.len() ==> '0' <= #[trigger] s[i] <= '9')
        && (s[0] != '0' || s.len() == 1)
}

/// The value of a decimal numeral.
pub open spec fn numeral_val(s: Seq<char>) -> nat
    decreases s.len(),
{
    if s.len() == 0 {
        0
    } else {
        (numeral_val(s.drop_last()) * 10 + (s.last() as int - '0' as int)) as nat
    }
}

/// A split of a prerelease string at the dot between id and number.
pub open spec fn valid_pre_split(s: Seq<char>, k: int) -> bool {
    0 < k < s.len() && s[k] == '.' && is_pre_id(s.subrange(0, k)) && is_numeral(
        s.subrange(k + 1, s.len() as int),
    ) && numeral_val(s.subrange(k + 1, s.len() as int)) <= u64::MAX
}

/// The supported prerelease grammar: empty, a word, or `word.number`.
pub open spec fn pre_grammar_ok(s: Seq<char>) -> bool {
    s.len() == 0 || is_pre_id(s) || exists|k: int| valid_pre_split(s, k)
}

/// The characters of a prerelease suffix, dash included.
pub open spec fn pre_chars(p: Prerelease) -> Seq<char> {
    seq!['-'] + p.id@ + match p.num {
        Some(n) => seq!['.'] + dec_chars(n as nat),
        None => Seq::<char>::empty(),
    }
}

/// The digit character of one decimal digit.
pub open spec fn digit_char(d: int) -> char {
    if d == 0 {
        '0'
    } else if d == 1 {
        '1'
    } else if d == 2 {
        '2'
    } else if d == 3 {
        '3'
    } else if d == 4 {
        '4'
    } else if d == 5 {
        '5'
    } else if d == 6 {
        '6'
    } else if d == 7 {
        '7'
    } else if d == 8 {
        '8'
    } else {
        '9'
    }
}

/// The decimal representation of a natural number.
pub open spec fn dec_chars(n: nat) -> Seq<char>
    decreases n,
{
    if n < 10 {
        seq![digit_char(n as int)]
    } else {
        dec_chars(n / 10) + seq![digit_char((n % 10) as int)]
    }
}

/// The bare version string: `major.minor.patch` with the prerelease
/// suffix, without build metadata.
pub open spec fn bare_chars(v: Version) -> Seq<char> {
    dec_chars(v.major as nat) + seq!['.'] + dec_chars(v.minor as nat) + seq!['.'] + dec_chars(
        v.patch as nat,
    ) + match v.pre {
        Some(p) => pre_chars(p),
        None => Seq::<char>::empty(),
    }
}

/// The full version string: the bare string plus `+build` when build
/// metadata is present.
pub open spec fn full_chars(v: Version) -> Seq<char> {
    bare_chars(v) + if v.build@.len() == 0 {
        Seq::<char>::empty()
    } else {
        seq!['+'] + v.build@
    }
}

/// The numeric triple a bump level produces.
pub open spec fn bumped_triple(current: Version, level: BumpLevel) -> (int, int, int) {
    match level {
        BumpLevel::Major => (current.major + 1, 0int, 0int),
        BumpLevel::Minor => (current.major as int, current.minor + 1, 0int),
        BumpLevel::Patch => if current.pre is Some {
            (current.major as int, current.minor as int, current.patch as int)
        } else {
            (current.major as int, current.minor as int, current.patch + 1)
        },
    }
}

/// The full version string of a plain (prerelease-free) version with the
/// given triple and build metadata.
pub open spec fn triple_full_chars(major: int, minor: int, patch: int, build: Seq<char>) -> Seq<
    char,
> {
    dec_chars(major as nat) + seq!['.'] + dec_chars(minor as nat) + seq!['.'] + dec_chars(
        patch as nat,
    ) + if build.len() == 0 {
        Seq::<char>::empty()
    } else {
        seq!['+'] + build
    }
}

/// Strict lexicographic order on character sequences by code point.
pub open spec fn seq_lex_lt(a: Seq<char>, b: Seq<char>) -> bool
    decreases a.len() + b.len(),
{
    if b.len() == 0 {
        false
    } else if a.len() == 0 {
        true
    } else if a[0] != b[0] {
        a[0] < b[0]
    } else {
        seq_lex_lt(a.skip(1), b.skip(1))
    }
}

/// Prerelease precedence: by id, then a bare id before a numbered one,
/// then by number.
pub open spec fn pre_lt(a: Prerelease, b: Prerelease) -> bool {
    if a.id@ != b.id@ {
        seq_lex_lt(a.id@, b.id@)
    } else {
        match (a.num, b.num) {
            (Option::None, Option::Some(_)) => true,
            (Option::Some(x), Option::Some(y)) => x < y,
            _ => false,
        }
    }
}

/// Strict semantic-version order: by the numeric triple, a prerelease
/// before its release, prereleases by precedence; build metadata ignored.
pub open spec fn version_lt(a: Version, b: Version) -> bool {
    if a.major != b.major {
        a.major < b.major
    } else if a.minor != b.minor {
        a.minor < b.minor
    } else if a.patch != b.patch {
        a.patch < b.patch
    } else {
        match (a.pre, b.pre) {
            (Option::Some(_), Option::None) => true,
            (Option::Some(x), Option::Some(y)) => pre_lt(x, y),
            _ => false,
        }
    }
}

/// Non-strict semantic-version order.
pub open spec fn version_le(a: Version, b: Version) -> bool {
    !version_lt(b, a)
}

/// Headroom for a relative bump: no numeric component at its maximum.
pub open spec fn bumpable(v: Version) -> bool {
    v.major < u64::MAX && v.minor < u64::MAX && v.patch < u64::MAX
}

proof fn lemma_lex_lt_common_head(a: Seq<char>, b: Seq<char>)
    requires
        a.len() > 0,
        b.len() > 0,
        a[0] == b[0],
    ensures
        seq_lex_lt(a, b) == seq_lex_lt(a.skip(1), b.skip(1)),
{
}

impl Prerelease {
    /// A copy of this prerelease value.
    pub fn duplicate(&self) -> (r: Self)
        ensures
            r.id@ == self.id@,
            r.num == self.num,
    {
        Prerelease { id: self.id.clone(), num: self.num }
    }
}

impl Version {
    /// A copy of this version value.
    pub fn duplicate(&self) -> (r: Self)
        ensures
            r.major == self.major,
            r.minor == self.minor,
            r.patch == self.patch,
            r.pre matches Some(p) ==> self.pre matches Some(q) && p.id@ == q.id@ && p.num == q.num,
            r.pre is None <==> self.pre is None,
            r.build@ == self.build@,
            bare_chars(*self) == bare_chars(r),
            full_chars(*self) == full_chars(r),
            forall|o: Version| version_lt(r, o) == version_lt(*self, o) && version_lt(o, r)
                == version_lt(o, *self),
    {
        let pre = match &self.pre {
            Some(p) => Some(p.duplicate()),
            None => None,
        };
        let r = Version {
            major: self.major,
            minor: self.minor,
            patch: self.patch,
            pre,
            build: self.build.clone(),
        };
        proof {
            assert(bare_chars(*self) == bare_chars(r));
            assert(full_chars(*self) == full_chars(r));
            assert forall|o: Version|
                version_lt(r, o) == version_lt(*self, o) && version_lt(o, r) == version_lt(
                    o,
                    *self,
                ) by {}
        }
        r
    }

    /// Whether this version carries a prerelease identifier.
    pub fn is_prerelease(&self) -> (r: bool)
        ensures
            r == (self.pre is Some),
    {
        self.pre.is_some()
    }
}

/// Strict order test on character sequences, by code point.
fn str_lex_lt(a: &str, b: &str) -> (r: bool)
    ensures
        r == seq_lex_lt(a@, b@),
{
    let alen = a.unicode_len();
    let blen = b.unicode_len();
    let mut i: usize = 0;
    proof {
        assert(a@.skip(0) =~= a@);
        assert(b@.skip(0) =~= b@);
    }
    while i < alen && i < blen
        invariant
            i <= alen,
            i <= blen,
            alen == a@.len(),
            blen == b@.len(),
            seq_lex_lt(a@, b@) == seq_lex_lt(a@.skip(i as int), b@.skip(i as int)),
        decreases alen - i,
    {
        let ca = a.get_char(i);
        let cb = b.get_char(i);
        if ca != cb {
            assert(a@.skip(i as int)[0] == ca && b@.skip(i as int)[0] == cb);
            return (ca as u32) < (cb as u32);
        }
        proof {
            lemma_lex_lt_common_head(a@.skip(i as int), b@.skip(i as int));
            assert(a@.skip(i as int).skip(1) =~= a@.skip(i + 1));
            assert(b@.skip(i as int).skip(1) =~= b@.skip(i + 1));
        }
        i = i + 1;
    }
    if i >= blen {
        assert(b@.skip(i as int).len() == 0);
        false
    } else {
        assert(a@.skip(i as int).len() == 0 && b@.skip(i as int).len() > 0);
        true
    }
}

/// Strict precedence test on prereleases.
fn pre_lt_exec(a: &Prerelease, b: &Prerelease) -> (r: bool)
    ensures
        r == pre_lt(*a, *b),
{
    if !a.id.eq(&b.id) {
        str_lex_lt(a.id.as_str(), b.id.as_str())
    } else {
        match (&a.num, &b.num) {
            (Option::None, Option::Some(_)) => true,
            (Option::Some(x), Option::Some(y)) => *x < *y,
            _ => false,
        }
    }
}

/// Strict semantic-version order test; build metadata is ignored.
pub fn version_lt_exec(a: &Version, b: &Version) -> (r: bool)
    ensures
        r == version_lt(*a, *b),
{
    if a.major != b.major {
        a.major < b.major
    } else if a.minor != b.minor {
        a.minor < b.minor
    } else if a.patch != b.patch {
        a.patch < b.patch
    } else {
        match (&a.pre, &b.pre) {
            (Option::Some(_), Option::None) => true,
            (Option::Some(x), Option::Some(y)) => pre_lt_exec(x, y),
            _ => false,
        }
    }
}

/// Non-strict semantic-version order test.
pub fn version_le_exec(a: &Version, b: &Version) -> (r: bool)
    ensures
        r == version_le(*a, *b),
{
    !version_lt_exec(b, a)
}

/// Relies on `String`'s `FromIterator<char>` implementation: collecting
/// characters yields the string of exactly those characters in order.
#[verifier::external_body]
pub(crate) fn chars_to_string(v: &Vec<char>) -> (r: String)
    ensures
        r@ == v@,
{
    v.iter().collect()
}

fn push_digit(out: &mut Vec<char>, d: u64)
    requires
        d < 10,
    ensures
        final(out)@ == old(out)@ + seq![digit_char(d as int)],
{
    let c: char = if d == 0 {
        '0'
    } else if d == 1 {
        '1'
    } else if d == 2 {
        '2'
    } else if d == 3 {
        '3'
    } else if d == 4 {
        '4'
    } else if d == 5 {
        '5'
    } else if d == 6 {
        '6'
    } else if d == 7 {
        '7'
    } else if d == 8 {
        '8'
    } else {
        '9'
    };
    out.push(c);
}

pub(crate) fn push_u64(out: &mut Vec<char>, n: u64)
    ensures
        final(out)@ == old(out)@ + dec_chars(n as nat),
    decreases n,
{
    if n < 10 {
        push_digit(out, n);
    } else {
        push_u64(out, n / 10);
        push_digit(out, n % 10);
        proof {
            assert(old(out)@ + dec_chars((n / 10) as nat) + seq![digit_char((n % 10) as int)]
                =~= old(out)@ + dec_chars(n as nat));
        }
    }
}

pub(crate) fn push_str_chars(out: &mut Vec<char>, s: &str)
    ensures
        final(out)@ == old(out)@ + s@,
{
    let len = s.unicode_len();
    let mut i: usize = 0;
    while i < len
        invariant
            i <= len,
            len == s@.len(),
            out@ == old(out)@ + s@.subrange(0, i as int),
        decreases len - i,
    {
        out.push(s.get_char(i));
        proof {
            assert(s@.subrange(0, i + 1) =~= s@.subrange(0, i as int) + seq![s@[i as int]]);
        }
        i = i + 1;
    }
    proof {
        assert(s@.subrange(0, len as int) =~= s@);
    }
}

impl Version {
    /// The bare version string: `major.minor.patch` plus the prerelease
    /// suffix, without build metadata.
    pub fn bare_version_string(&self) -> (r: String)
        ensures
            r@ == bare_chars(*self),
    {
        let mut out: Vec<char> = Vec::new();
        push_u64(&mut out, self.major);
        out.push('.');
        push_u64(&mut out, self.minor);
        out.push('.');
        push_u64(&mut out, self.patch);
        match &self.pre {
            Some(p) => {
                out.push('-');
                push_str_chars(&mut out, p.id.as_str());
                match &p.num {
                    Some(n) => {
                        out.push('.');
                        push_u64(&mut out, *n);
                    },
                    None => {},
                }
            },
            None => {},
        }
        proof {
            assert(out@ =~= bare_chars(*self));
        }
        chars_to_string(&out)
    }

    /// The full version string: the bare string plus `+build` when build
    /// metadata is present.
    pub fn full_version_string(&self) -> (r: String)
        ensures
            r@ == full_chars(*self),
    {
        let mut out: Vec<char> = Vec::new();
        push_str_chars(&mut out, self.bare_version_string().as_str());
        if !self.build.as_str().is_empty() {
            out.push('+');
            push_str_chars(&mut out, self.build.as_str());
        }
        proof {
            assert(out@ =~= full_chars(*self));
        }
        chars_to_string(&out)
    }
}

/// The bump keyword grammar: only `major`, `minor` and `patch`.
pub fn parse_level(s: &str) -> (r: Result<BumpLevel, FatalError>)
    ensures
        s@ == "major"@ ==> r == Ok::<BumpLevel, FatalError>(BumpLevel::Major),
        s@ == "minor"@ ==> r == Ok::<BumpLevel, FatalError>(BumpLevel::Minor),
        s@ == "patch"@ ==> r == Ok::<BumpLevel, FatalError>(BumpLevel::Patch),
        s@ != "major"@ && s@ != "minor"@ && s@ != "patch"@ ==> (r matches Err(
            FatalError::InvalidReleaseLevel(t),
        ) && t@ == s@),
{
    proof {
        reveal_strlit("major");
        reveal_strlit("minor");
        reveal_strlit("patch");
        assert("major"@[1] != "minor"@[1]);
        assert("major"@[0] != "patch"@[0]);
        assert("minor"@[0] != "patch"@[0]);
    }
    let owned = s.to_owned();
    if owned.eq(&String::from_str("major")) {
        Ok(BumpLevel::Major)
    } else if owned.eq(&String::from_str("minor")) {
        Ok(BumpLevel::Minor)
    } else if owned.eq(&String::from_str("patch")) {
        Ok(BumpLevel::Patch)
    } else {
        Err(FatalError::InvalidReleaseLevel(owned))
    }
}

proof fn lemma_numeral_val_prefix(t: Seq<char>, j: int)
    requires
        0 <= j <= t.len(),
        forall|i: int| 0 <= i < t.len() ==> '0' <= #[trigger] t[i] <= '9',
    ensures
        numeral_val(t.subrange(0, j)) <= numeral_val(t),
    decreases t.len() - j,
{
    if j == t.len() {
        assert(t.subrange(0, j) =~= t);
    } else {
        assert(t.subrange(0, j + 1).drop_last() =~= t.subrange(0, j));
        assert(t.subrange(0, j + 1).last() == t[j]);
        assert(numeral_val(t.subrange(0, j + 1)) >= numeral_val(t.subrange(0, j)));
        lemma_numeral_val_prefix(t, j + 1);
    }
}

/// Parses a prerelease string of the supported grammar; the empty string
/// means "no prerelease".  Anything else is the unsupported-scheme error.
pub fn parse_prerelease(s: &str) -> (r: Result<Option<Prerelease>, FatalError>)
    ensures
        r is Ok <==> pre_grammar_ok(s@),
        s@.len() == 0 ==> r == Ok::<Option<Prerelease>, FatalError>(None),
        r matches Ok(Some(p)) ==> s@.len() > 0 && (match p.num {
            None => is_pre_id(s@) && p.id@ == s@,
            Some(n) => exists|k: int|
                valid_pre_split(s@, k) && p.id@ == s@.subrange(0, k) && n == numeral_val(
                    s@.subrange(k + 1, s@.len() as int),
                ),
        }),
        r is Ok && s@.len() > 0 ==> r matches Ok(Some(_)),
        r matches Err(e) ==> e is UnsupportedPrereleaseVersionScheme,
{
    let len = s.unicode_len();
    if len == 0 {
        return Ok(None);
    }
    // find the first dot, checking id characters on the way
    let mut i: usize = 0;
    while i < len && s.get_char(i) != '.'
        invariant
            i <= len,
            len == s@.len(),
            forall|j: int| 0 <= j < i ==> #[trigger] s@[j] != '.',
        decreases len - i,
    {
        i = i + 1;
    }
    let dot: usize = i;
    // check the id part
    let mut i: usize = 0;
    while i < dot
        invariant
            i <= dot <= len,
            len == s@.len(),
            forall|j: int| 0 <= j < dot ==> #[trigger] s@[j] != '.',
            dot < len ==> s@[dot as int] == '.',
            forall|j: int| 0 <= j < i ==> 'a' <= #[trigger] s@[j] <= 'z',
        decreases dot - i,
    {
        let c = s.get_char(i);
        if !('a' <= c && c <= 'z') {
            proof {
                lemma_not_pre_grammar_bad_id(s@, dot as int, i as int);
            }
            return Err(FatalError::UnsupportedPrereleaseVersionScheme);
        }
        i = i + 1;
    }
    if dot == len {
        // a bare id; nonempty since len > 0
        assert(is_pre_id(s@));
        return Ok(Some(Prerelease { id: s.to_owned(), num: None }));
    }
    // id must be nonempty
    if dot == 0 {
        proof {
            lemma_not_pre_grammar_empty_id(s@);
        }
        return Err(FatalError::UnsupportedPrereleaseVersionScheme);
    }
    // parse the numeral after the dot
    if dot + 1 == len {
        proof {
            assert(s@.subrange(dot + 1, s@.len() as int).len() == 0);
            lemma_not_pre_grammar_bad_num(s@, dot as int);
        }
        return Err(FatalError::UnsupportedPrereleaseVersionScheme);
    }
    let first = s.get_char(dot + 1);
    if first == '0' && dot + 2 < len {
        proof {
            assert(s@.subrange(dot + 1, s@.len() as int)[0] == s@[dot + 1]);
            assert(s@.subrange(dot + 1, s@.len() as int).len() >= 2);
            assert(!is_numeral(s@.subrange(dot + 1, s@.len() as int)));
            lemma_not_pre_grammar_bad_num(s@, dot as int);
        }
        return Err(FatalError::UnsupportedPrereleaseVersionScheme);
    }
    let mut val: u64 = 0;
    let mut i: usize = dot + 1;
    while i < len
        invariant
            dot + 1 <= i <= len,
            len == s@.len(),
            0 < dot < len,
            s@[dot as int] == '.',
            forall|j: int| 0 <= j < dot ==> #[trigger] s@[j] != '.' && 'a' <= s@[j] <= 'z',
            forall|j: int| dot < j < i ==> '0' <= #[trigger] s@[j] <= '9',
            val == numeral_val(s@.subrange(dot + 1, i as int)),
        decreases len - i,
    {
        let c = s.get_char(i);
        if !('0' <= c && c <= '9') {
            proof {
                assert(s@.subrange(dot + 1, s@.len() as int)[i - (dot + 1)] == s@[i as int]);
                assert(!is_numeral(s@.subrange(dot + 1, s@.len() as int)));
                lemma_not_pre_grammar_bad_num(s@, dot as int);
            }
            return Err(FatalError::UnsupportedPrereleaseVersionScheme);
        }
        let d: u64 = (c as u32 as u64) - ('0' as u32 as u64);
        if val > 1844674407370955161u64 || (val == 1844674407370955161u64 && d > 5) {
            proof {
                lemma_not_pre_grammar_overflow(s@, dot as int, i as int, val, d);
            }
            return Err(FatalError::UnsupportedPrereleaseVersionScheme);
        }
        proof {
            assert(s@.subrange(dot + 1, i + 1).drop_last() =~= s@.subrange(dot + 1, i as int));
            assert(s@.subrange(dot + 1, i + 1).last() == s@[i as int]);
        }
        val = val * 10 + d;
        i = i + 1;
    }
    let id = s.substring_char(0, dot).to_owned();
    proof {
        assert(s@.subrange(dot + 1, len as int) =~= s@.subrange(dot + 1, s@.len() as int));
        assert(valid_pre_split(s@, dot as int));
    }
    Ok(Some(Prerelease { id, num: Some(val) }))
}

proof fn lemma_first_dot_only_split(s: Seq<char>, dot: int, k: int)
    requires
        0 <= dot < s.len(),
        s[dot] == '.',
        forall|j: int| 0 <= j < dot ==> #[trigger] s[j] != '.',
        valid_pre_split(s, k),
    ensures
        k == dot,
{
    if k < dot {
        assert(s[k] == '.');
    } else if k > dot {
        assert(s.subrange(0, k)[dot] == s[dot]);
        assert(!('a' <= s[dot] <= 'z'));
    }
}

proof fn lemma_not_pre_grammar_bad_id(s: Seq<char>, dot: int, bad: int)
    requires
        0 <= bad < dot <= s.len(),
        dot < s.len() ==> s[dot] == '.',
        forall|j: int| 0 <= j < dot ==> #[trigger] s[j] != '.',
        !('a' <= s[bad] <= 'z'),
    ensures
        !pre_grammar_ok(s),
{
    assert(!is_pre_id(s));
    assert forall|k: int| !valid_pre_split(s, k) by {
        if valid_pre_split(s, k) {
            if dot < s.len() {
                lemma_first_dot_only_split(s, dot, k);
                assert(s.subrange(0, k)[bad] == s[bad]);
            } else {
                assert(s[k] == '.');
            }
        }
    }
}

proof fn lemma_not_pre_grammar_empty_id(s: Seq<char>)
    requires
        s.len() > 0,
        s[0] == '.',
    ensures
        !pre_grammar_ok(s),
{
    assert(!is_pre_id(s));
    assert forall|k: int| !valid_pre_split(s, k) by {
        if valid_pre_split(s, k) {
            assert(s.subrange(0, k)[0] == s[0]);
        }
    }
}

proof fn lemma_not_pre_grammar_bad_num(s: Seq<char>, dot: int)
    requires
        0 < dot < s.len(),
        s[dot] == '.',
        forall|j: int| 0 <= j < dot ==> #[trigger] s[j] != '.',
        !is_numeral(s.subrange(dot + 1, s.len() as int)) || numeral_val(
            s.subrange(dot + 1, s.len() as int),
        ) > u64::MAX,
    ensures
        !pre_grammar_ok(s),
{
    assert(!is_pre_id(s));
    assert forall|k: int| !valid_pre_split(s, k) by {
        if valid_pre_split(s, k) {
            lemma_first_dot_only_split(s, dot, k);
        }
    }
}

proof fn lemma_not_pre_grammar_overflow(s: Seq<char>, dot: int, i: int, val: u64, d: u64)
    requires
        0 < dot < i < s.len(),
        s[dot] == '.',
        forall|j: int| 0 <= j < dot ==> #[trigger] s[j] != '.',
        forall|j: int| dot < j < i ==> '0' <= #[trigger] s[j] <= '9',
        '0' <= s[i] <= '9',
        d == s[i] as int - '0' as int,
        val == numeral_val(s.subrange(dot + 1, i)),
        val * 10 + d > u64::MAX,
    ensures
        !pre_grammar_ok(s),
{
    assert(!is_pre_id(s));
    assert forall|k: int| !valid_pre_split(s, k) by {
        if valid_pre_split(s, k) {
            lemma_first_dot_only_split(s, dot, k);
            let t = s.subrange(dot + 1, s.len() as int);
            assert(is_numeral(t));
            assert forall|j: int| 0 <= j < t.len() implies '0' <= #[trigger] t[j] <= '9' by {
                assert(t[j] == s[dot + 1 + j]);
            }
            lemma_numeral_val_prefix(t, i + 1 - (dot + 1));
            assert(t.subrange(0, i + 1 - (dot + 1)) =~= s.subrange(dot + 1, i + 1));
            assert(s.subrange(dot + 1, i + 1).drop_last() =~= s.subrange(dot + 1, i));
            assert(s.subrange(dot + 1, i + 1).last() == s[i]);
            assert(numeral_val(s.subrange(dot + 1, i + 1)) == val * 10 + d);
        }
    }
}

impl Version {
    /// Builds a version from its parts, parsing the prerelease string
    /// under the supported grammar.
    pub fn new(major: u64, minor: u64, patch: u64, pre: &str, build: &str) -> (r: Result<
        Version,
        FatalError,
    >)
        ensures
            r is Ok <==> pre_grammar_ok(pre@),
            r matches Ok(v) ==> v.major == major && v.minor == minor && v.patch == patch
                && v.build@ == build@ && (v.pre is None <==> pre@.len() == 0) && (
            v.pre matches Some(p) ==> match p.num {
                None => is_pre_id(pre@) && p.id@ == pre@,
                Some(n) => exists|k: int|
                    valid_pre_split(pre@, k) && p.id@ == pre@.subrange(0, k) && n == numeral_val(
                        pre@.subrange(k + 1, pre@.len() as int),
                    ),
            }),
            r matches Err(e) ==> e is UnsupportedPrereleaseVersionScheme,
    {
        match parse_prerelease(pre) {
            Ok(p) => Ok(Version { major, minor, patch, pre: p, build: build.to_owned() }),
            Err(e) => Err(e),
        }
    }
}

/// Applies a bump level to a version; the result never goes backwards
/// under semantic-version ordering, and any prerelease is cleared.
pub fn bump_version(current: &Version, level: BumpLevel, metadata: Option<&String>) -> (r: Version)
    requires
        bumpable(*current),
    ensures
        level == BumpLevel::Major ==> r.major == current.major + 1 && r.minor == 0 && r.patch == 0,
        level == BumpLevel::Minor ==> r.major == current.major && r.minor == current.minor + 1
            && r.patch == 0,
        level == BumpLevel::Patch && current.pre is Some ==> r.major == current.major && r.minor
            == current.minor && r.patch == current.patch,
        level == BumpLevel::Patch && current.pre is None ==> r.major == current.major && r.minor
            == current.minor && r.patch == current.patch + 1,
        r.pre is None,
        r.build@ == match metadata {
            Some(m) => m@,
            None => Seq::<char>::empty(),
        },
        version_le(*current, r),
        full_chars(r) == ({
            let t = bumped_triple(*current, level);
            triple_full_chars(
                t.0,
                t.1,
                t.2,
                match metadata {
                    Some(m) => m@,
                    None => Seq::<char>::empty(),
                },
            )
        }),
{
    let build: String = match metadata {
        Some(m) => m.clone(),
        None => String::new(),
    };
    match level {
        BumpLevel::Major => Version {
            major: current.major + 1,
            minor: 0,
            patch: 0,
            pre: None,
            build,
        },
        BumpLevel::Minor => Version {
            major: current.major,
            minor: current.minor + 1,
            patch: 0,
            pre: None,
            build,
        },
        BumpLevel::Patch => {
            if current.pre.is_some() {
                Version {
                    major: current.major,
                    minor: current.minor,
                    patch: current.patch,
                    pre: None,
                    build,
                }
            } else {
                Version {
                    major: current.major,
                    minor: current.minor,
                    patch: current.patch + 1,
                    pre: None,
                    build,
                }
            }
        },
    }
}

} // verus!
