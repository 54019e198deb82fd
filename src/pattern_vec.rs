use vstd::prelude::*;
use crate::order::{lex_lt, strictly_sorted};
use crate::pattern::{
    is_prefix_pattern, Pattern, lowercase_of, regex_compiles, regex_finds, validate_prefix, ParseError,
    RegexPattern, ADDRESS_LENGTH,
};
use crate::search_sorted::{find_sorted, views};
use crate::text::{leading_chars, string_from_chars};

verus! {

/// A non-empty input that becomes a prefix pattern once lowercased.
pub open spec fn accepted_prefix(raw: Seq<char>) -> bool {
    raw.len() > 0 && is_prefix_pattern(lowercase_of(raw))
}

/// A non-empty input that compiles as a regular expression.
pub open spec fn accepted_regex(raw: Seq<char>) -> bool {
    raw.len() > 0 && regex_compiles(raw)
}

pub open spec fn accepted(raw: Seq<char>, regex_mode: bool) -> bool {
    if regex_mode {
        accepted_regex(raw)
    } else {
        accepted_prefix(raw)
    }
}

/// The inputs that are reported and skipped: non-empty, and not accepted.
pub open spec fn rejected_pred(regex_mode: bool) -> spec_fn(Seq<char>) -> bool {
    |s: Seq<char>| s.len() > 0 && !accepted(s, regex_mode)
}

/// The inputs kept as regular expressions, in the order given.
pub open spec fn regex_pred() -> spec_fn(Seq<char>) -> bool {
    |s: Seq<char>| accepted_regex(s)
}

pub open spec fn string_views(s: Seq<String>) -> Seq<Seq<char>> {
    s.map_values(|x: String| x@)
}

/// Some of the first `n` inputs is an accepted prefix that lowercases to `p`.
pub open spec fn lowered_from(raw: Seq<Seq<char>>, n: int, p: Seq<char>) -> bool {
    exists|j: int| 0 <= j < n && accepted_prefix(raw[j]) && p == #[trigger] lowercase_of(raw[j])
}

/// The source text of each regular expression, in order.
pub open spec fn regex_sources(s: Seq<RegexPattern>) -> Seq<Seq<char>> {
    s.map_values(|p: RegexPattern| p.source_view())
}

/// The inputs of skipped entries, in order.
pub open spec fn skipped_views(s: Seq<SkippedPattern>) -> Seq<Seq<char>> {
    s.map_values(|x: SkippedPattern| x.raw@)
}

/// Inserting `x` where it belongs keeps a sequence strictly sorted.
proof fn lemma_insert_sorted(s: Seq<Seq<char>>, pos: int, x: Seq<char>)
    requires
        strictly_sorted(s),
        0 <= pos <= s.len(),
        forall|i: int| 0 <= i < pos ==> lex_lt(#[trigger] s[i], x),
        forall|i: int| pos <= i < s.len() ==> lex_lt(x, #[trigger] s[i]),
    ensures
        strictly_sorted(s.insert(pos, x)),
{
    let t = s.insert(pos, x);
    assert forall|i: int, j: int| 0 <= i < j < t.len() implies lex_lt(#[trigger] t[i], #[trigger] t[j]) by {
        if j < pos {
            assert(lex_lt(s[i], s[j]));
        } else if j == pos {
            assert(lex_lt(s[i], x));
        } else if i < pos {
            assert(lex_lt(s[i], s[j - 1]));
        } else if i == pos {
            assert(lex_lt(x, s[j - 1]));
        } else {
            assert(lex_lt(s[i - 1], s[j - 1]));
        }
    }
}

/// An input that was reported and skipped, with the reason.
pub struct SkippedPattern {
    pub raw: String,
    pub error: ParseError,
}

/// The patterns an address is tested against: all prefixes, or all regular
/// expressions. Prefixes are kept sorted and without repeats.
pub struct PatternVec {
    regex_mode: bool,
    prefixes: Vec<Vec<char>>,
    regexes: Vec<RegexPattern>,
}

impl PatternVec {
    /// Prefixes sorted without repeats, each a valid prefix pattern; patterns
    /// of one kind only.
    pub closed spec fn well_formed(&self) -> bool {
        &&& strictly_sorted(views(self.prefixes@))
        &&& forall|i: int| 0 <= i < self.prefixes.len() ==> is_prefix_pattern(#[trigger] self.prefixes@[i]@)
        &&& self.regex_mode ==> self.prefixes.len() == 0
        &&& !self.regex_mode ==> self.regexes.len() == 0
    }

    /// Whether the patterns are regular expressions.
    pub closed spec fn is_regex(&self) -> bool {
        self.regex_mode
    }

    /// The prefix patterns, in ascending order.
    pub closed spec fn prefix_view(&self) -> Seq<Seq<char>> {
        views(self.prefixes@)
    }

    /// The source text of each regular expression, in the order given.
    pub closed spec fn regex_view(&self) -> Seq<Seq<char>> {
        regex_sources(self.regexes@)
    }

    /// Whether `address` satisfies some pattern of the set.
    pub open spec fn spec_contains(&self, address: Seq<char>) -> bool {
        if self.is_regex() {
            exists|i: int| 0 <= i < self.regex_view().len() && regex_finds(#[trigger] self.regex_view()[i], address)
        } else {
            exists|i: int| 0 <= i < self.prefix_view().len() && (#[trigger] self.prefix_view()[i]).is_prefix_of(address)
        }
    }

    /// The prefix set is sorted without repeats, each a valid prefix pattern; a
    /// set holds patterns of one kind only.
    pub proof fn lemma_well_formed(&self)
        requires
            self.well_formed(),
        ensures
            strictly_sorted(self.prefix_view()),
            forall|i: int| 0 <= i < self.prefix_view().len() ==> is_prefix_pattern(#[trigger] self.prefix_view()[i]),
            self.is_regex() ==> self.prefix_view().len() == 0,
            !self.is_regex() ==> self.regex_view().len() == 0,
    {
        assert forall|i: int| 0 <= i < self.prefix_view().len() implies is_prefix_pattern(#[trigger] self.prefix_view()[i]) by {
            assert(self.prefix_view()[i] == self.prefixes@[i]@);
        }
    }

    /// Parses every non-empty input as a regular expression (`regex_mode`) or
    /// as a prefix. Those that fail are returned with their error, in order.
    /// Regular expressions are kept in the order given; prefixes are
    /// lowercased, sorted and freed of repeats (a prefix of another stays).
    pub fn new(regex_mode: bool, raw_patterns: &Vec<String>) -> (r: (PatternVec, Vec<SkippedPattern>))
        ensures
            r.0.well_formed(),
            r.0.is_regex() == regex_mode,
            regex_mode ==> r.0.regex_view() == string_views(raw_patterns@).filter(regex_pred()),
            !regex_mode ==> strictly_sorted(r.0.prefix_view()),
            !regex_mode ==> forall|k: int| 0 <= k < r.0.prefix_view().len()
                ==> lowered_from(string_views(raw_patterns@), raw_patterns.len() as int, #[trigger] r.0.prefix_view()[k]),
            !regex_mode ==> forall|j: int| 0 <= j < raw_patterns.len() && accepted_prefix(#[trigger] raw_patterns@[j]@)
                ==> r.0.prefix_view().contains(lowercase_of(raw_patterns@[j]@)),
            skipped_views(r.1@) == string_views(raw_patterns@).filter(rejected_pred(regex_mode)),
            forall|k: int| 0 <= k < r.1.len() ==> (if regex_mode {
                #[trigger] r.1@[k].error is InvalidRegex
            } else {
                r.1@[k].error == ParseError::InvalidCharacters
            }),
    {
        let ghost raws = string_views(raw_patterns@);
        let mut prefixes: Vec<Vec<char>> = Vec::new();
        let mut regexes: Vec<RegexPattern> = Vec::new();
        let mut skipped: Vec<SkippedPattern> = Vec::new();
        let mut i: usize = 0;
        while i < raw_patterns.len()
            invariant
                raws == string_views(raw_patterns@),
                i <= raw_patterns.len(),
                strictly_sorted(views(prefixes@)),
                forall|k: int| 0 <= k < prefixes.len() ==> is_prefix_pattern(#[trigger] prefixes@[k]@),
                regex_mode ==> prefixes.len() == 0,
                !regex_mode ==> regexes.len() == 0,
                regex_mode ==> regex_sources(regexes@) == raws.take(i as int).filter(regex_pred()),
                forall|k: int| 0 <= k < prefixes.len() ==> lowered_from(raws, i as int, #[trigger] prefixes@[k]@),
                !regex_mode ==> forall|j: int| 0 <= j < i && accepted_prefix(#[trigger] raws[j])
                    ==> views(prefixes@).contains(lowercase_of(raws[j])),
                skipped_views(skipped@) == raws.take(i as int).filter(rejected_pred(regex_mode)),
                forall|k: int| 0 <= k < skipped.len() ==> (if regex_mode {
                    #[trigger] skipped@[k].error is InvalidRegex
                } else {
                    skipped@[k].error == ParseError::InvalidCharacters
                }),
            decreases raw_patterns.len() - i,
        {
            let raw = &raw_patterns[i];
            let ghost x = raw@;
            assert(raws[i as int] == x);
            assert(raws.take(i + 1) =~= raws.take(i as int).push(x));
            proof {
                raws.take(i as int).lemma_filter_push(x, regex_pred());
                raws.take(i as int).lemma_filter_push(x, rejected_pred(regex_mode));
            }
            let ghost old_prefixes = views(prefixes@);
            if !raw.as_str().is_empty() {
                match Pattern::parse(raw.as_str(), regex_mode) {
                    Ok(Pattern::Prefix(s)) => {
                        let chars = leading_chars(s.as_str(), ADDRESS_LENGTH);
                        assert(chars@ =~= s@);
                        let (found, pos) = find_sorted(&prefixes, &chars, chars.len());
                        assert(chars@.take(chars.len() as int) =~= chars@);
                        if found {
                            assert(views(prefixes@)[pos as int] == prefixes@[pos as int]@);
                        } else {
                            proof {
                                assert forall|k: int| 0 <= k < pos implies lex_lt(#[trigger] old_prefixes[k], chars@) by {
                                    assert(old_prefixes[k] == prefixes@[k]@);
                                }
                                assert forall|k: int| pos <= k < old_prefixes.len() implies lex_lt(chars@, #[trigger] old_prefixes[k]) by {
                                    assert(old_prefixes[k] == prefixes@[k]@);
                                }
                                lemma_insert_sorted(old_prefixes, pos as int, chars@);
                            }
                            prefixes.insert(pos, chars);
                            assert(views(prefixes@) =~= old_prefixes.insert(pos as int, s@));
                            assert(views(prefixes@)[pos as int] == s@);
                            assert forall|j: int| 0 <= j < i && accepted_prefix(#[trigger] raws[j])
                                implies views(prefixes@).contains(lowercase_of(raws[j])) by {
                                if !regex_mode {
                                    let k = choose|k: int| 0 <= k < old_prefixes.len() && old_prefixes[k] == lowercase_of(raws[j]);
                                    if k < pos {
                                        assert(views(prefixes@)[k] == lowercase_of(raws[j]));
                                    } else {
                                        assert(views(prefixes@)[k + 1] == lowercase_of(raws[j]));
                                    }
                                }
                            }
                        }
                    },
                    Ok(Pattern::Regex(re)) => {
                        let ghost old_regexes = regexes@;
                        regexes.push(re);
                        assert(regex_sources(regexes@) =~= regex_sources(old_regexes).push(x));
                    },
                    Err(e) => {
                        let ghost old_skipped = skipped@;
                        skipped.push(SkippedPattern { raw: raw.clone(), error: e });
                        assert(skipped_views(skipped@) =~= skipped_views(old_skipped).push(x));
                    },
                }
            }
            i = i + 1;
        }
        assert(raws.take(i as int) =~= raws);
        assert forall|j: int| 0 <= j < raw_patterns.len() implies #[trigger] raw_patterns@[j]@ == raws[j] by {}
        (PatternVec { regex_mode, prefixes, regexes }, skipped)
    }

    /// The patterns as text: the prefixes in ascending order, or the regular
    /// expressions in the order given.
    pub fn patterns(&self) -> (r: Vec<String>)
        ensures
            string_views(r@) == (if self.is_regex() { self.regex_view() } else { self.prefix_view() }),
    {
        let mut r: Vec<String> = Vec::new();
        if self.regex_mode {
            let mut i: usize = 0;
            while i < self.regexes.len()
                invariant
                    self.regex_mode,
                    i <= self.regexes.len(),
                    string_views(r@) == regex_sources(self.regexes@).take(i as int),
                decreases self.regexes.len() - i,
            {
                let s = self.regexes[i].as_str().to_owned();
                let ghost old_r = r@;
                r.push(s);
                assert(string_views(r@) =~= string_views(old_r).push(s@));
                i = i + 1;
                assert(string_views(r@) =~= regex_sources(self.regexes@).take(i as int));
            }
            assert(regex_sources(self.regexes@).take(i as int) =~= regex_sources(self.regexes@));
        } else {
            let mut i: usize = 0;
            while i < self.prefixes.len()
                invariant
                    !self.regex_mode,
                    i <= self.prefixes.len(),
                    string_views(r@) == views(self.prefixes@).take(i as int),
                decreases self.prefixes.len() - i,
            {
                let s = string_from_chars(&self.prefixes[i]);
                let ghost old_r = r@;
                r.push(s);
                assert(string_views(r@) =~= string_views(old_r).push(s@));
                i = i + 1;
                assert(string_views(r@) =~= views(self.prefixes@).take(i as int));
            }
            assert(views(self.prefixes@).take(i as int) =~= views(self.prefixes@));
        }
        r
    }

    /// Number of patterns in the set.
    pub fn len(&self) -> (r: usize)
        ensures
            r == (if self.is_regex() { self.regex_view().len() } else { self.prefix_view().len() }),
    {
        if self.regex_mode {
            self.regexes.len()
        } else {
            self.prefixes.len()
        }
    }

    pub fn is_empty(&self) -> (r: bool)
        ensures
            r == (if self.is_regex() { self.regex_view().len() == 0 } else { self.prefix_view().len() == 0 }),
    {
        self.len() == 0
    }

    /// Whether `address` satisfies some pattern: begins with one of the prefixes,
    /// or is matched somewhere by one of the regular expressions.
    pub fn contains(&self, address: &String) -> (r: bool)
        requires
            self.well_formed(),
        ensures
            r == self.spec_contains(address@),
    {
        if self.regex_mode {
            self.contains_regex(address)
        } else {
            self.contains_prefix(address)
        }
    }

    /// Linear scan of the regular expressions.
    fn contains_regex(&self, address: &String) -> (r: bool)
        requires
            self.is_regex(),
        ensures
            r == self.spec_contains(address@),
    {
        let mut i: usize = 0;
        while i < self.regexes.len()
            invariant
                self.is_regex(),
                i <= self.regexes.len(),
                forall|j: int| 0 <= j < i ==> !regex_finds(#[trigger] self.regex_view()[j], address@),
            decreases self.regexes.len() - i,
        {
            let found = self.regexes[i].is_match(address.as_str());
            assert(self.regex_view()[i as int] == self.regexes@[i as int].source_view());
            if found {
                return true;
            }
            i = i + 1;
        }
        false
    }

    /// Binary search, for each length, of the address's leading characters
    /// among the sorted prefixes.
    fn contains_prefix(&self, address: &String) -> (r: bool)
        requires
            !self.is_regex(),
            strictly_sorted(views(self.prefixes@)),
            forall|i: int| 0 <= i < self.prefixes.len() ==> is_prefix_pattern(#[trigger] self.prefixes@[i]@),
        ensures
            r == self.spec_contains(address@),
    {
        let lead = leading_chars(address.as_str(), ADDRESS_LENGTH);
        let n = lead.len();
        let mut k: usize = 1;
        while k <= n
            invariant
                !self.is_regex(),
                n == lead.len(),
                n <= ADDRESS_LENGTH,
                lead@ == address@.take(n as int),
                n <= address@.len(),
                n == address@.len() || n == ADDRESS_LENGTH,
                1 <= k <= n + 1,
                strictly_sorted(views(self.prefixes@)),
                forall|i: int| 0 <= i < self.prefixes.len() && #[trigger] self.prefixes@[i]@.len() < k
                    ==> self.prefixes@[i]@ != lead@.take(self.prefixes@[i]@.len() as int),
            decreases n + 1 - k,
        {
            let (found, pos) = find_sorted(&self.prefixes, &lead, k);
            if found {
                assert(self.prefix_view()[pos as int] == self.prefixes@[pos as int]@);
                assert(lead@.take(k as int) =~= address@.take(k as int));
                assert(self.prefix_view()[pos as int].is_prefix_of(address@));
                return true;
            }
            k = k + 1;
        }
        assert forall|i: int| 0 <= i < self.prefix_view().len() implies !(#[trigger] self.prefix_view()[i]).is_prefix_of(address@) by {
            let p = self.prefixes@[i]@;
            assert(self.prefix_view()[i] == p);
            assert(is_prefix_pattern(p));
            if p.is_prefix_of(address@) {
                assert(p.len() <= n);
                assert(lead@.take(p.len() as int) =~= address@.take(p.len() as int));
                assert(p =~= lead@.take(p.len() as int));
            }
        }
        false
    }
}

} // verus!
