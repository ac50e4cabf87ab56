//! Semantic versions as plain values: the numeric core, the pre-release tag
//! and the build metadata, parsed and ordered by the `semver` crate.
use std::cmp::Ordering;
use vstd::prelude::*;

verus! {

/// What `semver::Version::parse` yields for a text: major, minor, patch,
/// pre-release tag and build metadata, or `None` when the text is rejected.
pub uninterp spec fn semver_fields(text: Seq<char>) -> Option<(u64, u64, u64, Seq<char>, Seq<char>)>;

/// Whether `semver::Prerelease::new` accepts a pre-release tag.
pub uninterp spec fn prerelease_accepted(tag: Seq<char>) -> bool;

/// The precedence of two pre-release tags under `semver::Prerelease`'s `Ord`.
pub uninterp spec fn prerelease_order(a: Seq<char>, b: Seq<char>) -> Ordering;

/// Orders two pre-release tags: equal tags are equal, as in any order.
pub open spec fn tag_cmp(a: Seq<char>, b: Seq<char>) -> Ordering {
    if a == b {
        Ordering::Equal
    } else {
        prerelease_order(a, b)
    }
}

/// A pre-release tag that a version may carry: none, or one that semver accepts.
pub open spec fn tag_ok(tag: Seq<char>) -> bool {
    tag.len() == 0 || prerelease_accepted(tag)
}

/// The mathematical value of a [`Version`].
pub struct VersionView {
    pub major: u64,
    pub minor: u64,
    pub patch: u64,
    pub pre: Seq<char>,
    pub build: Seq<char>,
}

/// A semantic version: `major.minor.patch`, an optional pre-release tag and
/// optional build metadata.
pub struct Version {
    major: u64,
    minor: u64,
    patch: u64,
    pre: String,
    build: String,
}

impl View for Version {
    type V = VersionView;

    closed spec fn view(&self) -> VersionView {
        VersionView {
            major: self.major,
            minor: self.minor,
            patch: self.patch,
            pre: self.pre@,
            build: self.build@,
        }
    }
}

/// Orders two integers.
pub open spec fn cmp_u64(a: u64, b: u64) -> Ordering {
    if a < b {
        Ordering::Less
    } else if a > b {
        Ordering::Greater
    } else {
        Ordering::Equal
    }
}

/// Semantic-version precedence: major, then minor, then patch, then the
/// pre-release tag; build metadata takes no part.
pub open spec fn version_cmp(a: VersionView, b: VersionView) -> Ordering {
    if a.major != b.major {
        cmp_u64(a.major, b.major)
    } else if a.minor != b.minor {
        cmp_u64(a.minor, b.minor)
    } else if a.patch != b.patch {
        cmp_u64(a.patch, b.patch)
    } else {
        tag_cmp(a.pre, b.pre)
    }
}

/// `a >= b` in precedence.
pub open spec fn version_ge(a: VersionView, b: VersionView) -> bool {
    version_cmp(a, b) != Ordering::Less
}

/// The text with at most one leading `v` removed.
pub open spec fn strip_v(text: Seq<char>) -> Seq<char> {
    if text.len() > 0 && text[0] == 'v' {
        text.subrange(1, text.len() as int)
    } else {
        text
    }
}

/// The view that the fields from semver describe.
pub open spec fn view_of_fields(f: (u64, u64, u64, Seq<char>, Seq<char>)) -> VersionView {
    VersionView { major: f.0, minor: f.1, patch: f.2, pre: f.3, build: f.4 }
}

/// What [`parse`] yields for a text: strict semver parsing after an optional
/// leading `v` is dropped.
pub open spec fn parse_spec(text: Seq<char>) -> Option<VersionView> {
    match semver_fields(strip_v(text)) {
        Some(f) => Some(view_of_fields(f)),
        None => None,
    }
}

/// The decimal digit for `d < 10`.
pub open spec fn digit_char(d: nat) -> char {
    if d == 0 { '0' }
    else if d == 1 { '1' }
    else if d == 2 { '2' }
    else if d == 3 { '3' }
    else if d == 4 { '4' }
    else if d == 5 { '5' }
    else if d == 6 { '6' }
    else if d == 7 { '7' }
    else if d == 8 { '8' }
    else { '9' }
}

/// The decimal notation of a natural number, without leading zeros.
pub open spec fn decimal(n: nat) -> Seq<char>
    decreases n,
{
    if n < 10 {
        seq![digit_char(n)]
    } else {
        decimal(n / 10) + seq![digit_char(n % 10)]
    }
}

/// The text of a version: `major.minor.patch`, then `-pre` and `+build` when
/// those are present.
pub open spec fn version_text(v: VersionView) -> Seq<char> {
    let core = decimal(v.major as nat) + seq!['.'] + decimal(v.minor as nat) + seq!['.']
        + decimal(v.patch as nat);
    let with_pre = if v.pre.len() == 0 { core } else { core + seq!['-'] + v.pre };
    if v.build.len() == 0 { with_pre } else { with_pre + seq!['+'] + v.build }
}

/// A character that a build-metadata identifier may hold.
pub open spec fn build_char(c: char) -> bool {
    ('0' <= c <= '9') || ('A' <= c <= 'Z') || ('a' <= c <= 'z') || c == '-'
}

/// Build metadata as semver accepts it: empty, or identifiers of
/// `[0-9A-Za-z-]` that are not empty, separated by single dots.
pub open spec fn build_ok(b: Seq<char>) -> bool {
    b.len() == 0 || {
        &&& forall|i: int| 0 <= i < b.len() ==> build_char(#[trigger] b[i]) || b[i] == '.'
        &&& b[0] != '.'
        &&& b[b.len() - 1] != '.'
        &&& forall|i: int| 0 <= i < b.len() - 1 ==> !(#[trigger] b[i] == '.' && b[i + 1] == '.')
    }
}

/// Whether a text is valid build metadata.
pub fn is_build_metadata(b: &str) -> (r: bool)
    ensures
        r == build_ok(b@),
{
    let n = b.unicode_len();
    if n == 0 {
        return true;
    }
    let mut i: usize = 0;
    let mut after_dot = true;
    while i < n
        invariant
            n == b@.len(),
            n > 0,
            i <= n,
            after_dot == (i == 0 || b@[i - 1] == '.'),
            forall|k: int| 0 <= k < i ==> build_char(#[trigger] b@[k]) || b@[k] == '.',
            i > 0 ==> b@[0] != '.',
            forall|k: int| 0 <= k < i - 1 ==> !(#[trigger] b@[k] == '.' && b@[k + 1] == '.'),
        decreases n - i,
    {
        let c = b.get_char(i);
        if c == '.' {
            if after_dot {
                proof {
                    if i > 0 {
                        assert(b@[i - 1] == '.' && b@[i as int] == '.');
                    }
                }
                return false;
            }
            after_dot = true;
        } else if ('0' <= c && c <= '9') || ('A' <= c && c <= 'Z') || ('a' <= c && c <= 'z') || c == '-' {
            after_dot = false;
        } else {
            proof {
                assert(!(build_char(b@[i as int]) || b@[i as int] == '.'));
            }
            return false;
        }
        i = i + 1;
    }
    !after_dot
}

/// Relies on `semver::Version::parse`: strict parsing of `major.minor.patch`
/// with optional pre-release and build parts, and on the parsed pre-release tag
/// being one that `semver::Prerelease::new` accepts.
#[verifier::external_body]
fn semver_parse(text: &str) -> (r: Option<Version>)
    ensures
        r is None <==> semver_fields(text@) is None,
        r matches Some(v) ==> semver_fields(text@) == Some(
            (v@.major, v@.minor, v@.patch, v@.pre, v@.build),
        ),
        r matches Some(v) ==> v@.pre.len() == 0 || prerelease_accepted(v@.pre),
{
    match semver::Version::parse(text) {
        Ok(v) => Some(
            Version {
                major: v.major,
                minor: v.minor,
                patch: v.patch,
                pre: v.pre.as_str().to_string(),
                build: v.build.as_str().to_string(),
            },
        ),
        Err(_) => None,
    }
}

/// Relies on `semver::Prerelease::new` to read two accepted tags (the empty
/// tag included) and on `semver::Prerelease`'s `Ord` to order them; an order is
/// reflexive.
#[verifier::external_body]
fn prerelease_cmp(a: &str, b: &str) -> (r: Ordering)
    requires
        tag_ok(a@),
        tag_ok(b@),
    ensures
        r == (if a@ == b@ { Ordering::Equal } else { prerelease_order(a@, b@) }),
{
    let a = semver::Prerelease::new(a).unwrap();
    let b = semver::Prerelease::new(b).unwrap();
    a.cmp(&b)
}

impl Version {
    #[verifier::type_invariant]
    spec fn inv(&self) -> bool {
        tag_ok(self.pre@)
    }

    /// A release version `major.minor.patch`, with no pre-release tag and no
    /// build metadata.
    pub fn new(major: u64, minor: u64, patch: u64) -> (r: Version)
        ensures
            r@ == (VersionView { major, minor, patch, pre: Seq::empty(), build: Seq::empty() }),
    {
        Version { major, minor, patch, pre: String::new(), build: String::new() }
    }

    /// This version with its build metadata replaced by valid build metadata.
    pub fn with_build(&self, build: &str) -> (r: Version)
        requires
            build_ok(build@),
        ensures
            r@ == (VersionView { build: build@, ..self@ }),
    {
        proof {
            use_type_invariant(self);
        }
        Version {
            major: self.major,
            minor: self.minor,
            patch: self.patch,
            pre: self.pre.clone(),
            build: build.to_owned(),
        }
    }

    pub fn major(&self) -> (r: u64)
        ensures
            r == self@.major,
    {
        self.major
    }

    pub fn minor(&self) -> (r: u64)
        ensures
            r == self@.minor,
    {
        self.minor
    }

    pub fn patch(&self) -> (r: u64)
        ensures
            r == self@.patch,
    {
        self.patch
    }

    pub fn pre(&self) -> (r: &str)
        ensures
            r@ == self@.pre,
    {
        self.pre.as_str()
    }

    pub fn build(&self) -> (r: &str)
        ensures
            r@ == self@.build,
    {
        self.build.as_str()
    }

    /// Precedence of `self` against `other`; build metadata is ignored.
    pub fn compare(&self, other: &Version) -> (r: Ordering)
        ensures
            r == version_cmp(self@, other@),
    {
        proof {
            use_type_invariant(self);
            use_type_invariant(other);
        }
        if self.major != other.major {
            if self.major < other.major { Ordering::Less } else { Ordering::Greater }
        } else if self.minor != other.minor {
            if self.minor < other.minor { Ordering::Less } else { Ordering::Greater }
        } else if self.patch != other.patch {
            if self.patch < other.patch { Ordering::Less } else { Ordering::Greater }
        } else {
            prerelease_cmp(self.pre.as_str(), other.pre.as_str())
        }
    }

    /// `self >= other` in precedence.
    pub fn ge(&self, other: &Version) -> (r: bool)
        ensures
            r == version_ge(self@, other@),
    {
        match self.compare(other) {
            Ordering::Less => false,
            _ => true,
        }
    }

    /// The text of this version, as semver writes it.
    pub fn to_text(&self) -> (r: String)
        ensures
            r@ == version_text(self@),
    {
        let mut s = decimal_text(self.major);
        s.append(".");
        let minor = decimal_text(self.minor);
        s.append(minor.as_str());
        s.append(".");
        let patch = decimal_text(self.patch);
        s.append(patch.as_str());
        proof {
            reveal_strlit(".");
        }
        if !self.pre.as_str().is_empty() {
            s.append("-");
            s.append(self.pre.as_str());
            proof {
                reveal_strlit("-");
            }
        }
        if !self.build.as_str().is_empty() {
            s.append("+");
            s.append(self.build.as_str());
            proof {
                reveal_strlit("+");
            }
        }
        proof {
            assert(s@ =~= version_text(self@));
        }
        s
    }
}

impl Clone for Version {
    fn clone(&self) -> (r: Self)
        ensures
            r@ == self@,
    {
        proof {
            use_type_invariant(self);
        }
        Version {
            major: self.major,
            minor: self.minor,
            patch: self.patch,
            pre: self.pre.clone(),
            build: self.build.clone(),
        }
    }
}

/// Two versions are equal when every part, build metadata included, is equal.
pub fn versions_equal(a: &Version, b: &Version) -> (r: bool)
    ensures
        r == (a@ == b@),
{
    let r = a.major == b.major && a.minor == b.minor && a.patch == b.patch
        && a.pre == b.pre && a.build == b.build;
    r
}

/// The digit for `d < 10` as a one-character text.
fn digit_text(d: u64) -> (r: &'static str)
    requires
        d < 10,
    ensures
        r@ == seq![digit_char(d as nat)],
{
    proof {
        reveal_strlit("0");
        reveal_strlit("1");
        reveal_strlit("2");
        reveal_strlit("3");
        reveal_strlit("4");
        reveal_strlit("5");
        reveal_strlit("6");
        reveal_strlit("7");
        reveal_strlit("8");
        reveal_strlit("9");
    }
    let r = if d == 0 { "0" }
    else if d == 1 { "1" }
    else if d == 2 { "2" }
    else if d == 3 { "3" }
    else if d == 4 { "4" }
    else if d == 5 { "5" }
    else if d == 6 { "6" }
    else if d == 7 { "7" }
    else if d == 8 { "8" }
    else { "9" };
    proof {
        assert(r@ =~= seq![digit_char(d as nat)]);
    }
    r
}

/// The decimal notation of `n`.
pub fn decimal_text(n: u64) -> (r: String)
    ensures
        r@ == decimal(n as nat),
    decreases n,
{
    if n < 10 {
        String::from_str(digit_text(n))
    } else {
        let mut s = decimal_text(n / 10);
        s.append(digit_text(n % 10));
        s
    }
}

/// Parses a version, accepting at most one leading `v` before strict semver
/// parsing: `v1.16.0` and `1.16.0` are the same version.
pub fn parse(text: &str) -> (r: Option<Version>)
    ensures
        r is None <==> parse_spec(text@) is None,
        r matches Some(v) ==> parse_spec(text@) == Some(v@),
{
    let n = text.unicode_len();
    if n > 0 && text.get_char(0) == 'v' {
        let rest = text.substring_char(1, n);
        proof {
            assert(rest@ == strip_v(text@));
        }
        semver_parse(rest)
    } else {
        proof {
            assert(text@ == strip_v(text@));
        }
        semver_parse(text)
    }
}

/// Prefix tolerance of parsing: a text and the same text behind one `v` parse
/// to the same result, whenever the text itself does not begin with `v`.
pub proof fn lemma_parse_prefix_tolerant(text: Seq<char>)
    requires
        !(text.len() > 0 && text[0] == 'v'),
    ensures
        parse_spec(seq!['v'] + text) == parse_spec(text),
{
    let prefixed = seq!['v'] + text;
    assert(prefixed.subrange(1, prefixed.len() as int) =~= text);
}

/// Parsing is idempotent: parsing a text that has already lost its `v` changes
/// nothing more.
pub proof fn lemma_parse_idempotent(text: Seq<char>)
    requires
        !(strip_v(text).len() > 0 && strip_v(text)[0] == 'v'),
    ensures
        parse_spec(strip_v(text)) == parse_spec(text),
{
}

/// A version is at least itself.
pub proof fn lemma_ge_reflexive(v: VersionView)
    ensures
        version_cmp(v, v) == Ordering::Equal,
        version_ge(v, v),
{
}

} // verus!
