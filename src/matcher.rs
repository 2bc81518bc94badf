use vstd::prelude::*;

use crate::encoding::{base58_encode, base58_of};
use crate::text::chars_of;

verus! {

/// What `str::to_lowercase` makes of a string.
pub uninterp spec fn lower_of(s: Seq<char>) -> Seq<char>;

/// `s` begins with `p`.
pub open spec fn has_prefix(s: Seq<char>, p: Seq<char>) -> bool {
    p.len() <= s.len() && s.subrange(0, p.len() as int) == p
}

/// `s` ends with `p`.
pub open spec fn has_suffix(s: Seq<char>, p: Seq<char>) -> bool {
    p.len() <= s.len() && s.subrange(s.len() - p.len(), s.len() as int) == p
}

/// An absent prefix is always satisfied.
pub open spec fn prefix_ok(c: Seq<char>, p: Option<Seq<char>>) -> bool {
    match p {
        Some(p) => has_prefix(c, p),
        None => true,
    }
}

/// An absent suffix is always satisfied.
pub open spec fn suffix_ok(c: Seq<char>, s: Option<Seq<char>>) -> bool {
    match s {
        Some(s) => has_suffix(c, s),
        None => true,
    }
}

/// Literal matching: both sides of the pattern hold, character for character.
pub open spec fn affix_match(c: Seq<char>, p: Option<Seq<char>>, s: Option<Seq<char>>) -> bool {
    prefix_ok(c, p) && suffix_ok(c, s)
}

/// The text of an optional pattern.
pub open spec fn opt_view(o: Option<String>) -> Option<Seq<char>> {
    match o {
        Some(s) => Some(s@),
        None => None,
    }
}

/// The lowercase form of an optional pattern.
pub open spec fn opt_lower(o: Option<Seq<char>>) -> Option<Seq<char>> {
    match o {
        Some(s) => Some(lower_of(s)),
        None => None,
    }
}

/// A pattern as a constraint: an empty pattern constrains nothing, just as an
/// absent one.
pub open spec fn active(p: Option<Seq<char>>) -> Option<Seq<char>> {
    match p {
        Some(q) => if q.len() == 0 {
            None
        } else {
            Some(q)
        },
        None => None,
    }
}

/// The matching policy: literal matching when case matters, otherwise literal
/// matching of the lowercase forms of candidate and (non-empty) patterns.
pub open spec fn pattern_match(
    c: Seq<char>,
    p: Option<Seq<char>>,
    s: Option<Seq<char>>,
    case_sensitive: bool,
) -> bool {
    if case_sensitive {
        affix_match(c, p, s)
    } else {
        affix_match(lower_of(c), opt_lower(active(p)), opt_lower(active(s)))
    }
}

/// What a search looks for: an optional prefix, an optional suffix, and
/// whether letter case counts. A side that is absent accepts every candidate.
pub struct MatchSpec {
    pub prefix: Option<String>,
    pub suffix: Option<String>,
    pub case_sensitive: bool,
}

impl MatchSpec {
    /// The candidate text `c` satisfies this spec.
    pub open spec fn accepts(&self, c: Seq<char>) -> bool {
        pattern_match(c, opt_view(self.prefix), opt_view(self.suffix), self.case_sensitive)
    }

    pub fn new(prefix: Option<String>, suffix: Option<String>, case_sensitive: bool) -> (r: Self)
        ensures
            r.prefix == prefix,
            r.suffix == suffix,
            r.case_sensitive == case_sensitive,
    {
        MatchSpec { prefix, suffix, case_sensitive }
    }

    /// Does the encoded candidate satisfy this spec?
    pub fn matches(&self, encoded: &str) -> (r: bool)
        ensures
            r == self.accepts(encoded@),
    {
        matches_encoded(encoded, &self.prefix, &self.suffix, self.case_sensitive)
    }
}

/// `p` occurs in `s` starting at position `i`.
pub open spec fn occurs_at(s: Seq<char>, p: Seq<char>, i: int) -> bool {
    0 <= i && i + p.len() <= s.len() && s.subrange(i, i + p.len()) == p
}

fn occurs_at_chars(c: &Vec<char>, p: &Vec<char>, i: usize) -> (r: bool)
    requires
        i + p@.len() <= c@.len(),
    ensures
        r == occurs_at(c@, p@, i as int),
{
    let n = c.len();
    let mut k: usize = 0;
    while k < p.len()
        invariant
            k <= p@.len(),
            i + p@.len() <= c@.len(),
            n == c@.len(),
            forall|j: int| 0 <= j < k ==> c@[i + j] == p@[j],
        decreases p@.len() - k,
    {
        if c[i + k] != p[k] {
            assert(c@.subrange(i as int, i + p@.len())[k as int] != p@[k as int]);
            return false;
        }
        k = k + 1;
    }
    assert(c@.subrange(i as int, i + p@.len()) =~= p@);
    true
}

fn starts_with_chars(c: &Vec<char>, p: &Vec<char>) -> (r: bool)
    ensures
        r == has_prefix(c@, p@),
{
    p.len() <= c.len() && occurs_at_chars(c, p, 0)
}

fn ends_with_chars(c: &Vec<char>, p: &Vec<char>) -> (r: bool)
    ensures
        r == has_suffix(c@, p@),
{
    p.len() <= c.len() && occurs_at_chars(c, p, c.len() - p.len())
}

/// Literal prefix/suffix matching of `candidate`, with no case folding.
pub fn affix_matches(candidate: &str, prefix: &Option<String>, suffix: &Option<String>) -> (r:
    bool)
    ensures
        r == affix_match(candidate@, opt_view(*prefix), opt_view(*suffix)),
{
    let c = chars_of(candidate);
    let front = match prefix {
        Some(p) => starts_with_chars(&c, &chars_of(p.as_str())),
        None => true,
    };
    let back = match suffix {
        Some(s) => ends_with_chars(&c, &chars_of(s.as_str())),
        None => true,
    };
    front && back
}

/// Relies on `str::to_lowercase`: the lowercase form depends on the text
/// alone, and the empty text stays empty.
#[verifier::external_body]
fn lowercase(s: &str) -> (r: String)
    ensures
        r@ == lower_of(s@),
        s@.len() == 0 ==> r@.len() == 0,
{
    s.to_lowercase()
}

/// The lowercase form of a pattern that constrains; none for an absent or
/// empty one.
fn lowercase_opt(o: &Option<String>) -> (r: Option<String>)
    ensures
        opt_view(r) == opt_lower(active(opt_view(*o))),
{
    match o {
        Some(s) => if s.as_str().is_empty() {
            None
        } else {
            Some(lowercase(s.as_str()))
        },
        None => None,
    }
}

/// Does the encoded candidate start with `starts_with` and end with
/// `ends_with` (each when given), comparing case-insensitively unless
/// `case_sensitive`?
pub fn matches_encoded(
    encoded: &str,
    starts_with: &Option<String>,
    ends_with: &Option<String>,
    case_sensitive: bool,
) -> (r: bool)
    ensures
        r == pattern_match(encoded@, opt_view(*starts_with), opt_view(*ends_with), case_sensitive),
{
    if case_sensitive {
        affix_matches(encoded, starts_with, ends_with)
    } else {
        let folded = lowercase(encoded);
        affix_matches(folded.as_str(), &lowercase_opt(starts_with), &lowercase_opt(ends_with))
    }
}

/// Does the base58 text of the public key `pubkey` satisfy the patterns?
pub fn check_pattern_match(
    pubkey: &[u8],
    starts_with: &Option<String>,
    ends_with: &Option<String>,
    case_sensitive: bool,
) -> (r: bool)
    ensures
        r == pattern_match(
            base58_of(pubkey@),
            opt_view(*starts_with),
            opt_view(*ends_with),
            case_sensitive,
        ),
{
    let encoded = base58_encode(pubkey);
    matches_encoded(encoded.as_str(), starts_with, ends_with, case_sensitive)
}

/// `p` occurs somewhere in `s`.
pub open spec fn contains(s: Seq<char>, p: Seq<char>) -> bool {
    exists|i: int| occurs_at(s, p, i)
}

/// The text as compared: itself when case matters, else its lowercase form.
pub open spec fn fold_case(s: Seq<char>, case_sensitive: bool) -> Seq<char> {
    if case_sensitive {
        s
    } else {
        lower_of(s)
    }
}

/// The index of the first of `pats`, from `from` on, that occurs in `c`
/// (both compared as `fold_case` gives them).
pub open spec fn first_hit(c: Seq<char>, pats: Seq<Seq<char>>, case_sensitive: bool, from: nat) -> Option<
    nat,
>
    decreases pats.len() - from,
{
    if from >= pats.len() {
        None
    } else if contains(fold_case(c, case_sensitive), fold_case(pats[from as int], case_sensitive)) {
        Some(from)
    } else {
        first_hit(c, pats, case_sensitive, from + 1)
    }
}

/// The texts of a list of patterns.
pub open spec fn texts(pats: Seq<String>) -> Seq<Seq<char>> {
    pats.map_values(|p: String| p@)
}

/// Does `p` occur in `c`?
pub fn contains_chars(c: &Vec<char>, p: &Vec<char>) -> (r: bool)
    ensures
        r == contains(c@, p@),
{
    if p.len() > c.len() {
        return false;
    }
    let last: usize = c.len() - p.len();
    let mut i: usize = 0;
    loop
        invariant
            last == c@.len() - p@.len(),
            i <= last,
            forall|j: int| 0 <= j < i ==> !occurs_at(c@, p@, j),
        decreases last - i,
    {
        if occurs_at_chars(c, p, i) {
            return true;
        }
        if i == last {
            return false;
        }
        i = i + 1;
    }
}

/// The first of `patterns` that occurs anywhere in `encoded`, comparing
/// case-insensitively unless `case_sensitive`.
pub fn first_pattern_in(encoded: &str, patterns: &Vec<String>, case_sensitive: bool) -> (r: Option<
    usize,
>)
    ensures
        r matches Some(j) ==> first_hit(encoded@, texts(patterns@), case_sensitive, 0) == Some(
            j as nat,
        ),
        r is None ==> first_hit(encoded@, texts(patterns@), case_sensitive, 0) is None,
{
    let c = if case_sensitive {
        chars_of(encoded)
    } else {
        chars_of(lowercase(encoded).as_str())
    };
    let ghost pats = texts(patterns@);
    let mut j: usize = 0;
    while j < patterns.len()
        invariant
            j <= patterns@.len(),
            pats == texts(patterns@),
            c@ == fold_case(encoded@, case_sensitive),
            first_hit(encoded@, pats, case_sensitive, 0) == first_hit(
                encoded@,
                pats,
                case_sensitive,
                j as nat,
            ),
        decreases patterns@.len() - j,
    {
        let p = if case_sensitive {
            chars_of(patterns[j].as_str())
        } else {
            chars_of(lowercase(patterns[j].as_str()).as_str())
        };
        assert(pats[j as int] == patterns@[j as int]@);
        if contains_chars(&c, &p) {
            return Some(j);
        }
        j = j + 1;
    }
    None
}
/// The index `first_hit` gives is one of the patterns.
pub proof fn lemma_first_hit_in_range(c: Seq<char>, pats: Seq<Seq<char>>, case_sensitive: bool, from: nat)
    ensures
        first_hit(c, pats, case_sensitive, from) matches Some(j) ==> from <= j < pats.len(),
    decreases pats.len() - from,
{
    if from < pats.len() {
        lemma_first_hit_in_range(c, pats, case_sensitive, from + 1);
    }
}

/// Matching asks exactly that the candidate begin with the prefix and end
/// with the suffix. An empty pattern constrains nothing, with or without
/// regard to case; a spec with neither side accepts every candidate, and a candidate made of the prefix, any
/// middle part and the suffix always matches.
pub proof fn lemma_affix_law(c: Seq<char>, p: Seq<char>, s: Seq<char>, m: Seq<char>)
    ensures
        affix_match(c, Some(p), Some(s)) <==> (p.len() <= c.len() && c.subrange(0, p.len() as int)
            == p && s.len() <= c.len() && c.subrange(c.len() - s.len(), c.len() as int) == s),
        affix_match(c, Some(Seq::empty()), Some(s)) == affix_match(c, None, Some(s)),
        affix_match(c, Some(p), Some(Seq::empty())) == affix_match(c, Some(p), None),
        affix_match(c, None, None),
        affix_match(p + m + s, Some(p), Some(s)),
        pattern_match(c, Some(Seq::empty()), Some(s), true) == pattern_match(c, None, Some(s), true),
        pattern_match(c, Some(Seq::empty()), Some(s), false) == pattern_match(c, None, Some(s), false),
        pattern_match(c, Some(p), Some(Seq::empty()), true) == pattern_match(c, Some(p), None, true),
        pattern_match(c, Some(p), Some(Seq::empty()), false) == pattern_match(c, Some(p), None, false),
        pattern_match(c, None, None, true) && pattern_match(c, None, None, false),
{
    assert(c.subrange(0, 0) =~= Seq::<char>::empty());
    assert(c.subrange(c.len() as int, c.len() as int) =~= Seq::<char>::empty());
    let w = p + m + s;
    assert(w.subrange(0, p.len() as int) =~= p);
    assert(w.subrange(w.len() - s.len(), w.len() as int) =~= s);
}

/// Case-insensitive matching sees only lowercase forms: candidates and
/// patterns that differ only in ways lowercasing erases get the same answer.
pub proof fn lemma_case_insensitive_invariance(
    c1: Seq<char>,
    c2: Seq<char>,
    p1: Option<Seq<char>>,
    p2: Option<Seq<char>>,
    s1: Option<Seq<char>>,
    s2: Option<Seq<char>>,
)
    requires
        lower_of(c1) == lower_of(c2),
        opt_lower(active(p1)) == opt_lower(active(p2)),
        opt_lower(active(s1)) == opt_lower(active(s2)),
    ensures
        pattern_match(c1, p1, s1, false) == pattern_match(c2, p2, s2, false),
{
}

} // verus!
