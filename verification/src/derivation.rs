//! Target references and their grammar.
//!
//! A reference names a derivation in one of three forms, tried in this
//! order: local (`.#word`), remote (`word:word`), bare/partial (`word`).
//! The whole input must match; the three shapes are mutually exclusive, so
//! the ordered choice is deterministic.

use vstd::prelude::*;
use vstd::string::*;

verus! {

/// Error returned when a target reference matches none of the grammars.
#[derive(Debug, Clone, PartialEq, Eq, Structural)]
pub enum ParseError {
    UnableToParse,
}

impl ParseError {
    /// The message this parse failure prints.
    pub fn message(&self) -> (r: &'static str)
        ensures
            r@ == "unable to parse derivation"@,
    {
        "unable to parse derivation"
    }
}

/// A character that may appear in an identifier word.
pub open spec fn is_word_char(c: char) -> bool {
    ('a' <= c && c <= 'z') || ('A' <= c && c <= 'Z') || ('0' <= c && c <= '9') || c == '_'
        || c == '-'
}

/// A non-empty run of identifier characters.
pub open spec fn is_word(s: Seq<char>) -> bool {
    s.len() >= 1 && (forall|i: int| 0 <= i < s.len() ==> is_word_char(s[i]))
}

/// The shape of a local reference: the sigil `.#` followed by a word.
pub open spec fn local_shape(s: Seq<char>) -> bool {
    s.len() >= 3 && s[0] == '.' && s[1] == '#' && is_word(s.skip(2))
}

/// The shape of a remote reference: a word, one colon, a word.
pub open spec fn remote_shape(s: Seq<char>) -> bool {
    exists|i: int|
        0 <= i < s.len() && s[i] == ':' && is_word(s.take(i)) && is_word(s.skip(i + 1))
}

/// A fully qualified reference into another flake: `protocol:path`.
#[derive(Debug, Clone)]
pub struct RemoteDerivation {
    pub protocol: String,
    pub path: String,
}

/// A fully qualified reference into the current flake: `.#path`.
#[derive(Debug, Clone)]
pub struct LocalDerivation {
    pub path: String,
}

/// A bare name, to be expanded with a target category and platform.
#[derive(Debug, Clone)]
pub struct PartialDerivation {
    pub name: String,
}

/// A parsed target reference, one of the three grammar forms.
#[derive(Debug, Clone)]
pub enum Derivation {
    Remote(RemoteDerivation),
    Local(LocalDerivation),
    Partial(PartialDerivation),
}

/// What it means for an input string to parse to a given reference value.
pub open spec fn parses_to(s: Seq<char>, d: Derivation) -> bool {
    match d {
        Derivation::Local(l) => local_shape(s) && l.path@ == s.skip(2),
        Derivation::Remote(r) => is_word(r.protocol@) && is_word(r.path@) && s == r.protocol@
            + seq![':'] + r.path@,
        Derivation::Partial(p) => is_word(s) && p.name@ == s,
    }
}

/// The canonical attribute-path string a reference resolves to, given a
/// target category and a platform identifier. Local and remote forms ignore
/// both; a partial form expands to `.#category.platform.name`.
pub open spec fn resolved_view(d: Derivation, ttype: Seq<char>, system: Seq<char>) -> Seq<char> {
    match d {
        Derivation::Remote(r) => r.protocol@ + seq![':'] + r.path@,
        Derivation::Local(l) => seq!['.', '#'] + l.path@,
        Derivation::Partial(p) => seq!['.', '#'] + ttype + seq!['.'] + system + seq!['.']
            + p.name@,
    }
}

/// Decide whether a character may appear in an identifier word.
fn word_char(c: char) -> (b: bool)
    ensures
        b == is_word_char(c),
{
    ('a' <= c && c <= 'z') || ('A' <= c && c <= 'Z') || ('0' <= c && c <= '9') || c == '_'
        || c == '-'
}

/// Scan forward from `from` and return the index of the first character
/// that is not an identifier character (or the end of the string).
fn word_end(s: &str, from: usize) -> (r: usize)
    requires
        from <= s@.len(),
    ensures
        from <= r <= s@.len(),
        forall|j: int| from <= j < r ==> is_word_char(s@[j]),
        r < s@.len() ==> !is_word_char(s@[r as int]),
{
    let n = s.unicode_len();
    let mut i = from;
    while i < n
        invariant
            from <= i <= n,
            n == s@.len(),
            forall|j: int| from <= j < i ==> is_word_char(s@[j]),
        decreases n - i,
    {
        let c = s.get_char(i);
        if !word_char(c) {
            return i;
        }
        i = i + 1;
    }
    i
}

impl RemoteDerivation {
    /// Re-serialize as `protocol:path`.
    pub fn to_string(&self) -> (r: String)
        ensures
            r@ == self.protocol@ + seq![':'] + self.path@,
    {
        let mut r = self.protocol.clone();
        r.append(":");
        r.append(self.path.as_str());
        proof {
            reveal_strlit(":");
            assert(r@ =~= self.protocol@ + seq![':'] + self.path@);
        }
        r
    }
}

impl LocalDerivation {
    /// Re-serialize as `.#path`.
    pub fn to_string(&self) -> (r: String)
        ensures
            r@ == seq!['.', '#'] + self.path@,
    {
        let mut r = String::new();
        r.append(".#");
        r.append(self.path.as_str());
        proof {
            reveal_strlit(".#");
            assert(r@ =~= seq!['.', '#'] + self.path@);
        }
        r
    }
}

impl PartialDerivation {
    /// Expand to `.#category.platform.name`.
    pub fn to_string(&self, ttype: &str, system: &str) -> (r: String)
        ensures
            r@ == seq!['.', '#'] + ttype@ + seq!['.'] + system@ + seq!['.'] + self.name@,
    {
        let mut r = String::new();
        r.append(".#");
        r.append(ttype);
        r.append(".");
        r.append(system);
        r.append(".");
        r.append(self.name.as_str());
        proof {
            reveal_strlit(".#");
            reveal_strlit(".");
            assert(r@ =~= seq!['.', '#'] + ttype@ + seq!['.'] + system@ + seq!['.']
                + self.name@);
        }
        r
    }
}

impl Derivation {
    /// The canonical attribute-path string for this reference, given the
    /// target category and the platform identifier.
    pub fn to_string(&self, ttype: &str, system: &str) -> (r: String)
        ensures
            r@ == resolved_view(*self, ttype@, system@),
    {
        match self {
            Derivation::Remote(rd) => rd.to_string(),
            Derivation::Local(l) => l.to_string(),
            Derivation::Partial(p) => p.to_string(ttype, system),
        }
    }

    /// Parse a whole input string as a reference, trying the local, remote
    /// and partial grammars in that order. Trailing unconsumed input is a
    /// parse failure, never a partial match.
    pub fn from_str(s: &str) -> (r: Result<Derivation, ParseError>)
        ensures
            match r {
                Ok(d) => parses_to(s@, d),
                Err(e) => !local_shape(s@) && !remote_shape(s@) && !is_word(s@) && e
                    == ParseError::UnableToParse,
            },
    {
        let n = s.unicode_len();
        if n >= 2 && s.get_char(0) == '.' && s.get_char(1) == '#' {
            let e = word_end(s, 2);
            if n >= 3 && e == n {
                let path = s.substring_char(2, n).to_owned();
                proof {
                    assert(s@.skip(2) =~= s@.subrange(2, n as int));
                    assert(is_word(s@.skip(2)));
                }
                Ok(Derivation::Local(LocalDerivation { path }))
            } else {
                proof {
                    lemma_sigil_not_remote(s@);
                    if n >= 3 {
                        assert(!is_word_char(s@[e as int]));
                        assert(!is_word(s@.skip(2))) by {
                            assert(s@.skip(2)[e - 2] == s@[e as int]);
                        }
                    } else {
                        assert(s@.skip(2).len() == 0);
                    }
                    assert(!is_word(s@)) by {
                        assert(!is_word_char(s@[0]));
                    }
                }
                Err(ParseError::UnableToParse)
            }
        } else {
            let e = word_end(s, 0);
            if e == 0 {
                proof {
                    lemma_no_leading_word_not_remote(s@);
                }
                Err(ParseError::UnableToParse)
            } else if e == n {
                let name = s.substring_char(0, n).to_owned();
                proof {
                    assert(s@.subrange(0, n as int) =~= s@);
                }
                Ok(Derivation::Partial(PartialDerivation { name }))
            } else if s.get_char(e) == ':' {
                let q = if e < n - 1 {
                    word_end(s, e + 1)
                } else {
                    n
                };
                if e + 1 < n && q == n {
                    let protocol = s.substring_char(0, e).to_owned();
                    let path = s.substring_char(e + 1, n).to_owned();
                    proof {
                        assert(is_word(s@.subrange(0, e as int)));
                        assert(is_word(s@.subrange(e + 1, n as int)));
                        assert(s@ =~= s@.subrange(0, e as int) + seq![':'] + s@.subrange(
                            e + 1,
                            n as int,
                        ));
                    }
                    Ok(Derivation::Remote(RemoteDerivation { protocol, path }))
                } else {
                    proof {
                        assert(!is_word(s@)) by {
                            assert(!is_word_char(s@[e as int]));
                        }
                        lemma_one_colon_bad_tail_not_remote(s@, e as int, q as int);
                    }
                    Err(ParseError::UnableToParse)
                }
            } else {
                proof {
                    assert(!is_word(s@)) by {
                        assert(!is_word_char(s@[e as int]));
                    }
                    lemma_no_colon_not_remote(s@, e as int);
                }
                Err(ParseError::UnableToParse)
            }
        }
    }
}

/// A string opening with the local sigil matches the remote grammar nowhere:
/// its first character is not an identifier character.
proof fn lemma_sigil_not_remote(s: Seq<char>)
    requires
        s.len() >= 1,
        s[0] == '.',
    ensures
        !remote_shape(s),
        !is_word(s),
{
    assert(!is_word_char('.'));
    assert forall|i: int|
        !(0 <= i < s.len() && s[i] == ':' && is_word(s.take(i)) && is_word(
            s.skip(i + 1),
        )) by {
        if 0 <= i < s.len() && s[i] == ':' && is_word(s.take(i)) {
            if i == 0 {
                assert(s.take(0).len() == 0);
            } else {
                assert(s.take(i)[0] == '.');
                assert(is_word_char(s.take(i)[0]));
            }
        }
    }
}

/// A string whose first character is not an identifier character (or which
/// is empty) matches neither the remote nor the partial grammar.
proof fn lemma_no_leading_word_not_remote(s: Seq<char>)
    requires
        s.len() >= 1 ==> !is_word_char(s[0]),
    ensures
        !remote_shape(s),
        !is_word(s),
{
    assert forall|i: int|
        !(0 <= i < s.len() && s[i] == ':' && is_word(s.take(i)) && is_word(
            s.skip(i + 1),
        )) by {
        if 0 <= i < s.len() && s[i] == ':' && is_word(s.take(i)) {
            if i == 0 {
                assert(s.take(0).len() == 0);
            } else {
                assert(s.take(i)[0] == s[0]);
                assert(is_word_char(s.take(i)[0]));
            }
        }
    }
}

/// If the first non-word character sits at `e` and is not a colon, the
/// remote grammar matches nowhere.
proof fn lemma_no_colon_not_remote(s: Seq<char>, e: int)
    requires
        0 <= e < s.len(),
        forall|j: int| 0 <= j < e ==> is_word_char(s[j]),
        !is_word_char(s[e]),
        s[e] != ':',
    ensures
        !remote_shape(s),
{
    assert(!is_word_char(':'));
    assert forall|i: int|
        !(0 <= i < s.len() && s[i] == ':' && is_word(s.take(i)) && is_word(
            s.skip(i + 1),
        )) by {
        if 0 <= i < s.len() && s[i] == ':' && is_word(s.take(i)) {
            if i < e {
                assert(is_word_char(s[i]));
            } else if i > e {
                assert(s.take(i)[e] == s[e]);
                assert(is_word_char(s.take(i)[e]));
            }
        }
    }
}

/// If the only candidate colon sits at `e` but what follows it is empty or
/// is interrupted by a non-word character at `q`, the remote grammar
/// matches nowhere.
proof fn lemma_one_colon_bad_tail_not_remote(s: Seq<char>, e: int, q: int)
    requires
        0 <= e < s.len(),
        forall|j: int| 0 <= j < e ==> is_word_char(s[j]),
        !is_word_char(s[e]),
        s[e] == ':',
        e + 1 < s.len() ==> e + 1 <= q < s.len(),
        e + 1 < s.len() ==> forall|j: int| e + 1 <= j < q ==> is_word_char(s[j]),
        e + 1 < s.len() ==> !is_word_char(s[q]),
    ensures
        !remote_shape(s),
{
    assert(!is_word_char(':'));
    assert forall|i: int|
        !(0 <= i < s.len() && s[i] == ':' && is_word(s.take(i)) && is_word(
            s.skip(i + 1),
        )) by {
        if 0 <= i < s.len() && s[i] == ':' && is_word(s.take(i)) && is_word(s.skip(i + 1)) {
            if i < e {
                assert(is_word_char(s[i]));
            } else if i > e {
                assert(s.take(i)[e] == s[e]);
                assert(is_word_char(s.take(i)[e]));
            } else {
                // i == e: the tail after the colon is not a word
                if e + 1 < s.len() {
                    assert(s.skip(e + 1)[q - (e + 1)] == s[q]);
                    assert(is_word_char(s[q]));
                } else {
                    assert(s.skip(e + 1).len() == 0);
                }
            }
        }
    }
}

/// Law: the three reference shapes are mutually exclusive, so the parser's
/// ordered choice among them is deterministic.
pub proof fn lemma_shapes_disjoint(s: Seq<char>)
    ensures
        local_shape(s) ==> !remote_shape(s) && !is_word(s),
        remote_shape(s) ==> !is_word(s),
{
    if local_shape(s) {
        lemma_sigil_not_remote(s);
    }
    if remote_shape(s) && is_word(s) {
        let i = choose|i: int|
            0 <= i < s.len() && s[i] == ':' && is_word(s.take(i)) && is_word(s.skip(i + 1));
        assert(is_word_char(s[i]));
        assert(!is_word_char(':'));
    }
}

/// Law: a sigil-prefixed word parses only to a local reference whose path
/// is that word.
pub proof fn lemma_parse_local(s: Seq<char>, x: Seq<char>, d: Derivation)
    requires
        is_word(x),
        s == seq!['.', '#'] + x,
        parses_to(s, d),
    ensures
        d matches Derivation::Local(l) && l.path@ == x,
{
    assert(s[0] == '.');
    assert(s.skip(2) =~= x);
    lemma_sigil_not_remote(s);
    match d {
        Derivation::Local(_) => {
        },
        Derivation::Remote(r) => {
            assert(remote_shape(s)) by {
                let i = r.protocol@.len() as int;
                assert(s[i] == ':');
                assert(s.take(i) =~= r.protocol@);
                assert(s.skip(i + 1) =~= r.path@);
            }
        },
        Derivation::Partial(_) => {
            assert(is_word_char(s[0]));
        },
    }
}

/// Law: a `word:word` string parses only to a remote reference carrying
/// exactly those two words.
pub proof fn lemma_parse_remote(s: Seq<char>, p: Seq<char>, q: Seq<char>, d: Derivation)
    requires
        is_word(p),
        is_word(q),
        s == p + seq![':'] + q,
        parses_to(s, d),
    ensures
        d matches Derivation::Remote(r) && r.protocol@ == p && r.path@ == q,
{
    assert(!is_word_char(':'));
    let c = p.len() as int;
    assert(s[c] == ':');
    assert(s.take(c) =~= p);
    assert(s.skip(c + 1) =~= q);
    match d {
        Derivation::Local(l) => {
            assert(s[0] == p[0]);
            assert(is_word_char(p[0]));
        },
        Derivation::Remote(r) => {
            // Both decompositions put their colon at the first colon of s,
            // so the two splits coincide.
            let c2 = r.protocol@.len() as int;
            assert(s[c2] == ':');
            assert(s.take(c2) =~= r.protocol@);
            assert(s.skip(c2 + 1) =~= r.path@);
            if c2 < c {
                assert(is_word_char(p[c2]));
                assert(s[c2] == p[c2]);
            }
            if c < c2 {
                assert(is_word_char(r.protocol@[c]));
                assert(s[c] == r.protocol@[c]);
            }
            assert(c == c2);
            assert(r.protocol@ =~= p);
            assert(r.path@ =~= q);
        },
        Derivation::Partial(_) => {
            assert(is_word_char(s[c]));
        },
    }
}

/// Law: a bare word parses only to a partial reference whose name is the
/// whole input.
pub proof fn lemma_parse_partial(n: Seq<char>, d: Derivation)
    requires
        is_word(n),
        parses_to(n, d),
    ensures
        d matches Derivation::Partial(p) && p.name@ == n,
{
    assert(!is_word_char(':'));
    assert(!is_word_char('.'));
    match d {
        Derivation::Local(_) => {
            assert(is_word_char(n[0]));
        },
        Derivation::Remote(r) => {
            let c = r.protocol@.len() as int;
            assert(n[c] == ':');
            assert(is_word_char(n[c]));
        },
        Derivation::Partial(_) => {
        },
    }
}

/// Law: resolving a parsed local or remote reference is a round trip; the
/// canonical string it resolves to is the input it was parsed from, for any
/// category and platform.
pub proof fn lemma_resolve_round_trip(
    s: Seq<char>,
    d: Derivation,
    ttype: Seq<char>,
    system: Seq<char>,
)
    requires
        parses_to(s, d),
        !(d is Partial),
    ensures
        resolved_view(d, ttype, system) == s,
{
    match d {
        Derivation::Local(l) => {
            assert(seq!['.', '#'] + s.skip(2) =~= s);
        },
        Derivation::Remote(_) => {
        },
        Derivation::Partial(_) => {
        },
    }
}

} // verus!
