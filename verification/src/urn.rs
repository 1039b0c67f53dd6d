//! A Uniform Resource Name (URN) type.
//!
//! A URN names a resource under the `urn` scheme:
//! `urn:<nid>:<nss>[/<path>][?<query>][#<fragment>]`. The namespace
//! identifier (NID) and namespace-specific string (NSS) are required; path,
//! query and fragment are optional. Parsing checks the structural shape: the
//! NID takes letters, digits, `-`, `.` and `_`; the NSS also takes `:`; the
//! path takes letters, digits, `/` and `-`.

use std::collections::HashMap;
use vstd::prelude::*;
use vstd::string::StrSliceExecFns;
use vstd::string::StringExecFns;

verus! {

/// Whether `c` is an ASCII letter or digit.
pub open spec fn is_ascii_alnum(c: char) -> bool {
    ('A' as u32) <= (c as u32) <= ('Z' as u32) || ('a' as u32) <= (c as u32) <= ('z' as u32) || (
    '0' as u32) <= (c as u32) <= ('9' as u32)
}

/// Whether `c` may appear in a namespace identifier.
pub open spec fn is_nid_char(c: char) -> bool {
    is_ascii_alnum(c) || c == '-' || c == '.' || c == '_'
}

/// Whether `c` may appear in a namespace-specific string.
pub open spec fn is_nss_char(c: char) -> bool {
    is_nid_char(c) || c == ':'
}

/// Whether `c` may appear in a path component.
pub open spec fn is_path_char(c: char) -> bool {
    is_ascii_alnum(c) || c == '/' || c == '-'
}

/// Whether every character of `s` may appear in a namespace identifier.
pub open spec fn all_nid_chars(s: Seq<char>) -> bool {
    forall|i: int| 0 <= i < s.len() ==> is_nid_char(#[trigger] s[i])
}

/// Whether every character of `s` may appear in a namespace-specific string.
pub open spec fn all_nss_chars(s: Seq<char>) -> bool {
    forall|i: int| 0 <= i < s.len() ==> is_nss_char(#[trigger] s[i])
}

/// Whether every character of `s` may appear in a path component.
pub open spec fn all_path_chars(s: Seq<char>) -> bool {
    forall|i: int| 0 <= i < s.len() ==> is_path_char(#[trigger] s[i])
}

/// The position of the first occurrence of `c` in `s`, if any.
pub open spec fn find_char(s: Seq<char>, c: char) -> Option<int>
    decreases s.len(),
{
    if s.len() == 0 {
        None
    } else if s[0] == c {
        Some(0int)
    } else {
        match find_char(s.drop_first(), c) {
            None => None,
            Some(i) => Some(i + 1),
        }
    }
}

/// A position holding `c`, with no earlier one, is the first occurrence.
pub proof fn lemma_find_char_is(s: Seq<char>, c: char, i: int)
    requires
        0 <= i < s.len(),
        s[i] == c,
        forall|j: int| 0 <= j < i ==> s[j] != c,
    ensures
        find_char(s, c) == Some(i),
    decreases s.len(),
{
    if i > 0 {
        assert(forall|j: int| 0 <= j < i - 1 ==> s.drop_first()[j] == s[j + 1]);
        assert(s.drop_first()[i - 1] == s[i]);
        lemma_find_char_is(s.drop_first(), c, i - 1);
    }
}

/// No position holds `c`, so there is no first occurrence.
pub proof fn lemma_find_char_none(s: Seq<char>, c: char)
    requires
        forall|j: int| 0 <= j < s.len() ==> s[j] != c,
    ensures
        find_char(s, c) is None,
    decreases s.len(),
{
    if s.len() > 0 {
        assert(forall|j: int| 0 <= j < s.len() - 1 ==> s.drop_first()[j] == s[j + 1]);
        lemma_find_char_none(s.drop_first(), c);
    }
}

/// `s` split at the first occurrence of `c`: the part before it, and the
/// part after it — absent when `c` does not occur.
pub open spec fn split_at_char(s: Seq<char>, c: char) -> (Seq<char>, Option<Seq<char>>) {
    match find_char(s, c) {
        None => (s, None),
        Some(i) => (s.take(i), Some(s.skip(i + 1))),
    }
}

/// The NID, NSS and optional path read out of the part of a URN string
/// after the scheme and before any query or fragment: the NID runs to the
/// first `:`, the NSS from there to the first `/` (or the end), the path is
/// what follows that `/`. Absent when the shape or a character class is
/// violated.
pub open spec fn body_parts(body: Seq<char>) -> Option<(Seq<char>, Seq<char>, Option<Seq<char>>)> {
    match find_char(body, ':') {
        None => None,
        Some(i) => {
            let nid = body.take(i);
            let rest = body.skip(i + 1);
            if nid.len() == 0 || !all_nid_chars(nid) {
                None
            } else {
                match find_char(rest, '/') {
                    None => if rest.len() > 0 && all_nss_chars(rest) {
                        Some((nid, rest, None))
                    } else {
                        None
                    },
                    Some(j) => {
                        let nss = rest.take(j);
                        let path = rest.skip(j + 1);
                        if nss.len() > 0 && all_nss_chars(nss) && all_path_chars(path) {
                            Some((nid, nss, Some(path)))
                        } else {
                            None
                        }
                    },
                }
            }
        },
    }
}

/// Whether `s` starts with the `urn:` scheme.
pub open spec fn has_urn_prefix(s: Seq<char>) -> bool {
    s.len() >= 4 && s[0] == 'u' && s[1] == 'r' && s[2] == 'n' && s[3] == ':'
}

/// The five components of a URN string with the `urn:` scheme: NID, NSS,
/// path, query and fragment. The fragment is what follows the first `#`,
/// the query what lies between the first `?` and that `#`. Absent when the
/// remainder does not match the URN shape.
pub open spec fn parsed_urn(s: Seq<char>) -> Option<
    (Seq<char>, Seq<char>, Option<Seq<char>>, Option<Seq<char>>, Option<Seq<char>>),
> {
    let rem = s.skip(4);
    let (before_fragment, fragment) = split_at_char(rem, '#');
    let (body, query) = split_at_char(before_fragment, '?');
    match body_parts(body) {
        None => None,
        Some((nid, nss, path)) => Some((nid, nss, path, query, fragment)),
    }
}

/// The text of a URN with the given components:
/// `urn:<nid>:<nss>[/<path>][?<query>][#<fragment>]`.
pub open spec fn urn_text(
    nid: Seq<char>,
    nss: Seq<char>,
    path: Option<Seq<char>>,
    query: Option<Seq<char>>,
    fragment: Option<Seq<char>>,
) -> Seq<char> {
    seq!['u', 'r', 'n', ':'] + nid + seq![':'] + nss + (match path {
        Some(p) => seq!['/'] + p,
        None => Seq::<char>::empty(),
    }) + (match query {
        Some(q) => seq!['?'] + q,
        None => Seq::<char>::empty(),
    }) + (match fragment {
        Some(f) => seq!['#'] + f,
        None => Seq::<char>::empty(),
    })
}

/// What `str::to_lowercase` returns for the given characters.
pub uninterp spec fn lower_of(s: Seq<char>) -> Seq<char>;

/// Relies on `str::to_lowercase`: the result depends on the characters
/// alone, an empty string stays empty, and lowercasing is idempotent — the
/// only context-dependent mapping, the final sigma, already produces
/// lowercase letters that map to themselves.
#[verifier::external_body]
fn lowercase(s: &str) -> (r: String)
    ensures
        r@ == lower_of(s@),
        s@.len() == 0 ==> r@.len() == 0,
        lower_of(r@) == r@,
{
    s.to_lowercase()
}

/// Whether `url::Url::parse` accepts the given characters.
pub uninterp spec fn url_parse_ok(s: Seq<char>) -> bool;

#[verifier::external_type_specification]
#[verifier::external_body]
pub struct ExUrl(url::Url);

/// Relies on `url::Url::parse`: it returns a URL exactly when it accepts
/// the string, and acceptance depends on the characters alone.
#[verifier::external_body]
fn parse_url(s: &str) -> (r: Option<url::Url>)
    ensures
        r is Some <==> url_parse_ok(s@),
{
    url::Url::parse(s).ok()
}

/// What `url::form_urlencoded::parse` reads out of the given characters,
/// with repeated keys collapsed to the last value as collecting into a map
/// leaves them.
pub uninterp spec fn query_pairs_of(q: Seq<char>) -> Map<String, String>;

/// Relies on `url::form_urlencoded::parse`: the key-value pairs depend on
/// the characters alone.
#[verifier::external_body]
fn parse_query_pairs(q: &str) -> (r: HashMap<String, String>)
    ensures
        r@ == query_pairs_of(q@),
{
    url::form_urlencoded::parse(q.as_bytes()).into_owned().collect()
}

/// Whether two optional strings hold the same characters.
fn opt_str_eq(a: &Option<String>, b: &Option<String>) -> (r: bool)
    ensures
        r == (a.deep_view() == b.deep_view()),
{
    match (a, b) {
        (Some(x), Some(y)) => x.eq(y),
        (None, None) => true,
        _ => false,
    }
}

/// A copy of an optional string.
fn clone_opt_string(o: &Option<String>) -> (r: Option<String>)
    ensures
        r == *o,
{
    match o {
        Some(p) => Some(p.clone()),
        None => None,
    }
}

/// Whether `c` may appear in a namespace identifier.
fn is_nid_char_exec(c: char) -> (r: bool)
    ensures
        r == is_nid_char(c),
{
    let u = c as u32;
    (('A' as u32) <= u && u <= ('Z' as u32)) || (('a' as u32) <= u && u <= ('z' as u32)) || (('0'
        as u32) <= u && u <= ('9' as u32)) || c == '-' || c == '.' || c == '_'
}

/// Whether `c` may appear in a namespace-specific string.
fn is_nss_char_exec(c: char) -> (r: bool)
    ensures
        r == is_nss_char(c),
{
    is_nid_char_exec(c) || c == ':'
}

/// Whether `c` may appear in a path component.
fn is_path_char_exec(c: char) -> (r: bool)
    ensures
        r == is_path_char(c),
{
    let u = c as u32;
    (('A' as u32) <= u && u <= ('Z' as u32)) || (('a' as u32) <= u && u <= ('z' as u32)) || (('0'
        as u32) <= u && u <= ('9' as u32)) || c == '/' || c == '-'
}

/// The position of the first occurrence of `c` in `s`, if any.
fn find_char_in(s: &str, c: char) -> (r: Option<usize>)
    ensures
        match r {
            None => find_char(s@, c) is None,
            Some(i) => i < s@.len() && find_char(s@, c) == Some(i as int),
        },
{
    let n = s.unicode_len();
    let mut i: usize = 0;
    while i < n
        invariant
            n == s@.len(),
            i <= n,
            forall|j: int| 0 <= j < i ==> s@[j] != c,
        decreases n - i,
    {
        if s.get_char(i) == c {
            proof {
                lemma_find_char_is(s@, c, i as int);
            }
            return Some(i);
        }
        i = i + 1;
    }
    proof {
        lemma_find_char_none(s@, c);
    }
    None
}

/// Whether every character of `s` may appear in a namespace identifier.
fn check_all_nid(s: &str) -> (r: bool)
    ensures
        r == all_nid_chars(s@),
{
    let n = s.unicode_len();
    let mut i: usize = 0;
    while i < n
        invariant
            n == s@.len(),
            i <= n,
            forall|j: int| 0 <= j < i ==> is_nid_char(#[trigger] s@[j]),
        decreases n - i,
    {
        if !is_nid_char_exec(s.get_char(i)) {
            return false;
        }
        i = i + 1;
    }
    true
}

/// Whether every character of `s` may appear in a namespace-specific string.
fn check_all_nss(s: &str) -> (r: bool)
    ensures
        r == all_nss_chars(s@),
{
    let n = s.unicode_len();
    let mut i: usize = 0;
    while i < n
        invariant
            n == s@.len(),
            i <= n,
            forall|j: int| 0 <= j < i ==> is_nss_char(#[trigger] s@[j]),
        decreases n - i,
    {
        if !is_nss_char_exec(s.get_char(i)) {
            return false;
        }
        i = i + 1;
    }
    true
}

/// Whether every character of `s` may appear in a path component.
fn check_all_path(s: &str) -> (r: bool)
    ensures
        r == all_path_chars(s@),
{
    let n = s.unicode_len();
    let mut i: usize = 0;
    while i < n
        invariant
            n == s@.len(),
            i <= n,
            forall|j: int| 0 <= j < i ==> is_path_char(#[trigger] s@[j]),
        decreases n - i,
    {
        if !is_path_char_exec(s.get_char(i)) {
            return false;
        }
        i = i + 1;
    }
    true
}

/// A Uniform Resource Name: `urn:<nid>:<nss>[/<path>][?<query>][#<fragment>]`.
#[derive(Debug, Clone, Hash)]
pub struct Urn {
    /// The namespace identifier.
    pub nid: String,
    /// The namespace-specific string.
    pub nss: String,
    /// The optional path component.
    pub path: Option<String>,
    /// The optional query component.
    pub query: Option<String>,
    /// The optional fragment component.
    pub fragment: Option<String>,
}

impl PartialEq for Urn {
    fn eq(&self, other: &Urn) -> (r: bool) {
        self.nid.eq(&other.nid) && self.nss.eq(&other.nss) && opt_str_eq(&self.path, &other.path)
            && opt_str_eq(&self.query, &other.query) && opt_str_eq(
            &self.fragment,
            &other.fragment,
        )
    }
}

impl vstd::std_specs::cmp::PartialEqSpecImpl for Urn {
    open spec fn obeys_eq_spec() -> bool {
        true
    }

    open spec fn eq_spec(&self, other: &Urn) -> bool {
        self.nid@ == other.nid@ && self.nss@ == other.nss@ && self.path.deep_view()
            == other.path.deep_view() && self.query.deep_view() == other.query.deep_view()
            && self.fragment.deep_view() == other.fragment.deep_view()
    }
}

impl Eq for Urn {

}

/// The reasons a string is rejected as a URN.
#[derive(Debug)]
pub enum UrnFormatError {
    /// The input does not start with the `urn:` scheme.
    UrnSchemeExpected,
    /// The input does not match the URN shape.
    InvalidUrn,
}

/// The reasons a builder cannot produce a URN.
#[derive(Debug)]
pub enum UrnBuilderError {
    /// A required field was never set; the name of the field is carried.
    UninitializedField(&'static str),
}

/// A step-by-step constructor for `Urn` values.
#[derive(Debug, Default)]
pub struct UrnBuilder {
    nid: Option<String>,
    nss: Option<String>,
    path: Option<String>,
    query: Option<String>,
    fragment: Option<String>,
}

impl UrnBuilder {
    /// The field values set so far, in declaration order.
    pub closed spec fn parts(&self) -> (
        Option<Seq<char>>,
        Option<Seq<char>>,
        Option<Seq<char>>,
        Option<Seq<char>>,
        Option<Seq<char>>,
    ) {
        (
            self.nid.deep_view(),
            self.nss.deep_view(),
            self.path.deep_view(),
            self.query.deep_view(),
            self.fragment.deep_view(),
        )
    }

    /// Sets the namespace identifier.
    pub fn nid(self, value: &str) -> (r: Self)
        ensures
            r.parts() == (
                Some(value@),
                self.parts().1,
                self.parts().2,
                self.parts().3,
                self.parts().4,
            ),
    {
        UrnBuilder { nid: Some(value.to_owned()), ..self }
    }

    /// Sets the namespace-specific string.
    pub fn nss(self, value: &str) -> (r: Self)
        ensures
            r.parts() == (
                self.parts().0,
                Some(value@),
                self.parts().2,
                self.parts().3,
                self.parts().4,
            ),
    {
        UrnBuilder { nss: Some(value.to_owned()), ..self }
    }

    /// Sets the path component.
    pub fn path(self, value: &str) -> (r: Self)
        ensures
            r.parts() == (
                self.parts().0,
                self.parts().1,
                Some(value@),
                self.parts().3,
                self.parts().4,
            ),
    {
        UrnBuilder { path: Some(value.to_owned()), ..self }
    }

    /// Sets the query component.
    pub fn query(self, value: &str) -> (r: Self)
        ensures
            r.parts() == (
                self.parts().0,
                self.parts().1,
                self.parts().2,
                Some(value@),
                self.parts().4,
            ),
    {
        UrnBuilder { query: Some(value.to_owned()), ..self }
    }

    /// Sets the fragment component.
    pub fn fragment(self, value: &str) -> (r: Self)
        ensures
            r.parts() == (
                self.parts().0,
                self.parts().1,
                self.parts().2,
                self.parts().3,
                Some(value@),
            ),
    {
        UrnBuilder { fragment: Some(value.to_owned()), ..self }
    }

    /// The URN with the fields set so far; refused when the namespace
    /// identifier or the namespace-specific string was never set.
    pub fn build(self) -> (r: Result<Urn, UrnBuilderError>)
        ensures
            self.parts().0 is Some && self.parts().1 is Some <==> r is Ok,
            r matches Ok(u) ==> {
                &&& Some(u.nid@) == self.parts().0
                &&& Some(u.nss@) == self.parts().1
                &&& u.path.deep_view() == self.parts().2
                &&& u.query.deep_view() == self.parts().3
                &&& u.fragment.deep_view() == self.parts().4
            },
            self.parts().0 is None ==> (r matches Err(UrnBuilderError::UninitializedField(f))
                && f == "nid"),
            self.parts().0 is Some && self.parts().1 is None ==> (r matches Err(
                UrnBuilderError::UninitializedField(f),
            ) && f == "nss"),
    {
        let nid = match self.nid {
            Some(nid) => nid,
            None => {
                return Err(UrnBuilderError::UninitializedField("nid"));
            },
        };
        let nss = match self.nss {
            Some(nss) => nss,
            None => {
                return Err(UrnBuilderError::UninitializedField("nss"));
            },
        };
        Ok(Urn { nid, nss, path: self.path, query: self.query, fragment: self.fragment })
    }
}

impl Urn {
    /// A builder with no field set.
    pub fn builder() -> (r: UrnBuilder)
        ensures
            r.parts() == (
                None::<Seq<char>>,
                None::<Seq<char>>,
                None::<Seq<char>>,
                None::<Seq<char>>,
                None::<Seq<char>>,
            ),
    {
        UrnBuilder { nid: None, nss: None, path: None, query: None, fragment: None }
    }

    /// The namespace identifier (NID).
    pub fn nid(&self) -> (r: &str)
        ensures
            r@ == self.nid@,
    {
        self.nid.as_str()
    }

    /// The namespace-specific string (NSS).
    pub fn nss(&self) -> (r: &str)
        ensures
            r@ == self.nss@,
    {
        self.nss.as_str()
    }

    /// The path component, if present.
    pub fn path(&self) -> (r: Option<&str>)
        ensures
            r.deep_view() == self.path.deep_view(),
    {
        match &self.path {
            Some(p) => Some(p.as_str()),
            None => None,
        }
    }

    /// The query component, if present.
    pub fn query(&self) -> (r: Option<&str>)
        ensures
            r.deep_view() == self.query.deep_view(),
    {
        match &self.query {
            Some(q) => Some(q.as_str()),
            None => None,
        }
    }

    /// The fragment component, if present.
    pub fn fragment(&self) -> (r: Option<&str>)
        ensures
            r.deep_view() == self.fragment.deep_view(),
    {
        match &self.fragment {
            Some(f) => Some(f.as_str()),
            None => None,
        }
    }

    /// Whether the URN has both of its required components: a non-empty NID
    /// and a non-empty NSS.
    pub fn is_valid(&self) -> (r: bool)
        ensures
            r == (self.nid@.len() > 0 && self.nss@.len() > 0),
    {
        !self.nid.as_str().is_empty() && !self.nss.as_str().is_empty()
    }

    /// Whether the two URNs are equal once the namespace identifiers are
    /// lowercased; the other components must match exactly.
    pub fn equals(&self, other: &Self) -> (r: bool)
        ensures
            r == (lower_of(self.nid@) == lower_of(other.nid@) && self.nss@ == other.nss@
                && self.path.deep_view() == other.path.deep_view() && self.query.deep_view()
                == other.query.deep_view() && self.fragment.deep_view()
                == other.fragment.deep_view()),
    {
        let my_nid = lowercase(self.nid.as_str());
        let other_nid = lowercase(other.nid.as_str());
        my_nid == other_nid && self.nss == other.nss && opt_str_eq(&self.path, &other.path)
            && opt_str_eq(&self.query, &other.query) && opt_str_eq(
            &self.fragment,
            &other.fragment,
        )
    }

    /// The same URN with the namespace identifier lowercased; normalizing
    /// again changes nothing, since a lowercased identifier is its own
    /// lowercase form.
    pub fn normalize(&self) -> (r: Self)
        ensures
            r.nid@ == lower_of(self.nid@),
            lower_of(r.nid@) == r.nid@,
            r.nss == self.nss,
            r.path == self.path,
            r.query == self.query,
            r.fragment == self.fragment,
    {
        Urn {
            nid: lowercase(self.nid.as_str()),
            nss: self.nss.clone(),
            path: clone_opt_string(&self.path),
            query: clone_opt_string(&self.query),
            fragment: clone_opt_string(&self.fragment),
        }
    }

    /// The same URN with the query component replaced by `query`.
    pub fn with_query(&self, query: Option<&str>) -> (r: Self)
        ensures
            r.nid == self.nid,
            r.nss == self.nss,
            r.path == self.path,
            r.query.deep_view() == query.deep_view(),
            r.fragment == self.fragment,
    {
        Urn {
            nid: self.nid.clone(),
            nss: self.nss.clone(),
            path: clone_opt_string(&self.path),
            query: match query {
                Some(q) => Some(q.to_owned()),
                None => None,
            },
            fragment: clone_opt_string(&self.fragment),
        }
    }

    /// The same URN with the fragment component replaced by `fragment`.
    pub fn with_fragment(&self, fragment: Option<&str>) -> (r: Self)
        ensures
            r.nid == self.nid,
            r.nss == self.nss,
            r.path == self.path,
            r.query == self.query,
            r.fragment.deep_view() == fragment.deep_view(),
    {
        Urn {
            nid: self.nid.clone(),
            nss: self.nss.clone(),
            path: clone_opt_string(&self.path),
            query: clone_opt_string(&self.query),
            fragment: match fragment {
                Some(f) => Some(f.to_owned()),
                None => None,
            },
        }
    }

    /// The same URN without a query component.
    pub fn without_query(&self) -> (r: Self)
        ensures
            r.nid == self.nid,
            r.nss == self.nss,
            r.path == self.path,
            r.query is None,
            r.fragment == self.fragment,
    {
        self.with_query(None)
    }

    /// The same URN without a fragment component.
    pub fn without_fragment(&self) -> (r: Self)
        ensures
            r.nid == self.nid,
            r.nss == self.nss,
            r.path == self.path,
            r.query == self.query,
            r.fragment is None,
    {
        self.with_fragment(None)
    }

    /// The query's key-value pairs, or absence when there is no query.
    pub fn parse_query(&self) -> (r: Option<HashMap<String, String>>)
        ensures
            self.query is None ==> r is None,
            self.query matches Some(q) ==> (r matches Some(m) && m@ == query_pairs_of(q@)),
    {
        match &self.query {
            Some(q) => Some(parse_query_pairs(q.as_str())),
            None => None,
        }
    }

    /// Reads a URN out of `s`.
    ///
    /// The input must start with the `urn:` scheme, and what follows must
    /// match the URN shape: a fragment after the first `#`, a query between
    /// the first `?` and that `#`, and before them `<nid>:<nss>[/<path>]`
    /// with each part drawn from its character class.
    pub fn from_str(s: &str) -> (r: Result<Urn, UrnFormatError>)
        ensures
            match r {
                Ok(u) => {
                    &&& has_urn_prefix(s@)
                    &&& parsed_urn(s@) matches Some(p)
                    &&& parsed_urn(s@) == Some(
                        (u.nid@, u.nss@, u.path.deep_view(), u.query.deep_view(),
                        u.fragment.deep_view()),
                    )
                },
                Err(UrnFormatError::UrnSchemeExpected) => !has_urn_prefix(s@),
                Err(UrnFormatError::InvalidUrn) => has_urn_prefix(s@) && parsed_urn(s@) is None,
            },
    {
        let n = s.unicode_len();
        if n < 4 || s.get_char(0) != 'u' || s.get_char(1) != 'r' || s.get_char(2) != 'n'
            || s.get_char(3) != ':' {
            return Err(UrnFormatError::UrnSchemeExpected);
        }
        let rem = s.substring_char(4, n);
        proof {
            assert(rem@ =~= s@.skip(4));
        }
        let nrem = rem.unicode_len();
        let (before_fragment, fragment): (&str, Option<&str>) = match find_char_in(rem, '#') {
            Some(i) => (rem.substring_char(0, i), Some(rem.substring_char(i + 1, nrem))),
            None => (rem, None),
        };
        proof {
            assert(before_fragment@ =~= split_at_char(rem@, '#').0);
            assert(fragment.deep_view() =~~= split_at_char(rem@, '#').1);
        }
        let nbf = before_fragment.unicode_len();
        let (body, query): (&str, Option<&str>) = match find_char_in(before_fragment, '?') {
            Some(i) => (
                before_fragment.substring_char(0, i),
                Some(before_fragment.substring_char(i + 1, nbf)),
            ),
            None => (before_fragment, None),
        };
        proof {
            assert(body@ =~= split_at_char(before_fragment@, '?').0);
            assert(query.deep_view() =~~= split_at_char(before_fragment@, '?').1);
        }
        let nb = body.unicode_len();
        let colon = match find_char_in(body, ':') {
            Some(i) => i,
            None => {
                return Err(UrnFormatError::InvalidUrn);
            },
        };
        let nid_str = body.substring_char(0, colon);
        proof {
            assert(nid_str@ =~= body@.take(colon as int));
        }
        if nid_str.unicode_len() == 0 || !check_all_nid(nid_str) {
            return Err(UrnFormatError::InvalidUrn);
        }
        let rest = body.substring_char(colon + 1, nb);
        proof {
            assert(rest@ =~= body@.skip(colon + 1));
        }
        let nrest = rest.unicode_len();
        match find_char_in(rest, '/') {
            None => {
                if nrest > 0 && check_all_nss(rest) {
                    Ok(
                        Urn {
                            nid: nid_str.to_owned(),
                            nss: rest.to_owned(),
                            path: None,
                            query: match query {
                                Some(q) => Some(q.to_owned()),
                                None => None,
                            },
                            fragment: match fragment {
                                Some(f) => Some(f.to_owned()),
                                None => None,
                            },
                        },
                    )
                } else {
                    Err(UrnFormatError::InvalidUrn)
                }
            },
            Some(j) => {
                let nss_str = rest.substring_char(0, j);
                let path_str = rest.substring_char(j + 1, nrest);
                proof {
                    assert(nss_str@ =~= rest@.take(j as int));
                    assert(path_str@ =~= rest@.skip(j + 1));
                }
                if nss_str.unicode_len() > 0 && check_all_nss(nss_str) && check_all_path(
                    path_str,
                ) {
                    Ok(
                        Urn {
                            nid: nid_str.to_owned(),
                            nss: nss_str.to_owned(),
                            path: Some(path_str.to_owned()),
                            query: match query {
                                Some(q) => Some(q.to_owned()),
                                None => None,
                            },
                            fragment: match fragment {
                                Some(f) => Some(f.to_owned()),
                                None => None,
                            },
                        },
                    )
                } else {
                    Err(UrnFormatError::InvalidUrn)
                }
            },
        }
    }

    /// The URN as text: `urn:<nid>:<nss>[/<path>][?<query>][#<fragment>]`.
    pub fn to_string(&self) -> (r: String)
        ensures
            r@ == urn_text(
                self.nid@,
                self.nss@,
                self.path.deep_view(),
                self.query.deep_view(),
                self.fragment.deep_view(),
            ),
    {
        proof {
            reveal_strlit("urn:");
            reveal_strlit(":");
            reveal_strlit("/");
            reveal_strlit("?");
            reveal_strlit("#");
        }
        let mut out = String::from_str("urn:");
        out.append(self.nid.as_str());
        out.append(":");
        out.append(self.nss.as_str());
        match &self.path {
            Some(p) => {
                out.append("/");
                out.append(p.as_str());
            },
            None => {},
        }
        match &self.query {
            Some(q) => {
                out.append("?");
                out.append(q.as_str());
            },
            None => {},
        }
        match &self.fragment {
            Some(f) => {
                out.append("#");
                out.append(f.as_str());
            },
            None => {},
        }
        proof {
            assert(out@ =~= urn_text(
                self.nid@,
                self.nss@,
                self.path.deep_view(),
                self.query.deep_view(),
                self.fragment.deep_view(),
            ));
        }
        out
    }

    /// The URN as a URL, where the URL syntax accepts its text.
    pub fn to_url(&self) -> (r: Option<url::Url>)
        ensures
            r is Some <==> url_parse_ok(
                urn_text(
                    self.nid@,
                    self.nss@,
                    self.path.deep_view(),
                    self.query.deep_view(),
                    self.fragment.deep_view(),
                ),
            ),
    {
        let text = self.to_string();
        parse_url(text.as_str())
    }

    /// Whether the two URNs are lexically equivalent: equal NID up to case,
    /// and equal NSS and path; query and fragment play no part.
    pub fn is_lexically_equivalent(&self, other: &Self) -> (r: bool)
        ensures
            r == (lower_of(self.nid@) == lower_of(other.nid@) && self.nss@ == other.nss@
                && self.path.deep_view() == other.path.deep_view()),
    {
        let norm_self = self.normalize();
        let norm_other = other.normalize();
        norm_self.nid == norm_other.nid && norm_self.nss == norm_other.nss && opt_str_eq(
            &norm_self.path,
            &norm_other.path,
        )
    }
}

} // verus!
