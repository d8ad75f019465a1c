//! The allow-list: an ordered sequence of case-insensitive substring
//! patterns over User-Agent strings. A User-Agent is permitted when any
//! pattern is a substring of it or it is a substring of the pattern;
//! an empty list denies everything.

use vstd::prelude::*;
use vstd::string::StringExecFns;
use crate::text::{contains_sub, is_substring};

verus! {

/// What str::to_lowercase returns on given characters; a function of
/// the characters alone.
pub uninterp spec fn lower_of(s: Seq<char>) -> Seq<char>;

/// Relies on str::to_lowercase: the lowercase form of the text, a
/// function of its characters alone.
#[verifier::external_body]
fn to_lower(s: &str) -> (r: String)
    ensures
        r@ == lower_of(s@),
{
    s.to_lowercase()
}

/// One pattern permits a User-Agent when, case ignored, either text
/// contains the other.
pub open spec fn pattern_matches(pattern: Seq<char>, ua: Seq<char>) -> bool {
    is_substring(lower_of(pattern), lower_of(ua)) || is_substring(lower_of(ua), lower_of(pattern))
}

/// Whether some configured pattern permits the User-Agent.
pub open spec fn allowed_spec(patterns: Seq<Seq<char>>, ua: Seq<char>) -> bool {
    exists|i: int| 0 <= i < patterns.len() && #[trigger] pattern_matches(patterns[i], ua)
}

/// The built-in pattern set used when no configuration is given.
pub open spec fn default_patterns() -> Seq<Seq<char>> {
    seq![
        seq!['f', 'r', 'e', 'e', 's', 'w', 'i', 't', 'c', 'h'],
        seq!['m', 'i', 'c', 'r', 'o', 's', 'i', 'p'],
        seq!['t', 'e', 'l', 'e', 'p', 'h', 'o', 'n', 'e'],
        seq!['j', 's', 's', 'i', 'p'],
    ]
}

/// The configured allow-list patterns.
pub struct Whitelist {
    patterns: Vec<String>,
}

impl Whitelist {
    /// The patterns, as character sequences.
    pub closed spec fn patterns_spec(&self) -> Seq<Seq<char>> {
        self.patterns.deep_view()
    }

    pub fn new(patterns: Vec<String>) -> (r: Self)
        ensures
            r.patterns_spec() == patterns.deep_view(),
    {
        Whitelist { patterns }
    }

    /// Case-insensitive bidirectional substring match against the
    /// configured patterns; the first match decides.
    pub fn is_allowed(&self, user_agent: &str) -> (r: bool)
        ensures
            r == allowed_spec(self.patterns_spec(), user_agent@),
    {
        let ua_lower = to_lower(user_agent);
        let mut i: usize = 0;
        while i < self.patterns.len()
            invariant
                i <= self.patterns@.len(),
                ua_lower@ == lower_of(user_agent@),
                forall|k: int|
                    0 <= k < i ==> !#[trigger] pattern_matches(self.patterns.deep_view()[k], user_agent@),
            decreases self.patterns@.len() - i,
        {
            let pattern_lower = to_lower(self.patterns[i].as_str());
            if contains_sub(ua_lower.as_str(), pattern_lower.as_str()) || contains_sub(
                pattern_lower.as_str(),
                ua_lower.as_str(),
            ) {
                proof {
                    assert(self.patterns.deep_view()[i as int] == self.patterns@[i as int]@);
                    assert(pattern_matches(self.patterns.deep_view()[i as int], user_agent@));
                }
                return true;
            }
            i += 1;
        }
        false
    }

    /// Appends one pattern at the end of the list.
    pub fn add_pattern(&mut self, pattern: String)
        ensures
            final(self).patterns_spec() == old(self).patterns_spec().push(pattern@),
    {
        let ghost before = self.patterns.deep_view();
        self.patterns.push(pattern);
        proof {
            assert(self.patterns.deep_view() =~= before.push(pattern@));
        }
    }

    /// All configured patterns, in order.
    pub fn get_patterns(&self) -> (r: &Vec<String>)
        ensures
            r.deep_view() == self.patterns_spec(),
    {
        &self.patterns
    }
}

impl Default for Whitelist {
    /// The default allow-list: freeswitch, microsip, telephone, jssip.
    fn default() -> (r: Self)
        ensures
            r.patterns_spec() == default_patterns(),
    {
        let mut patterns: Vec<String> = Vec::new();
        patterns.push(String::from_str("freeswitch"));
        patterns.push(String::from_str("microsip"));
        patterns.push(String::from_str("telephone"));
        patterns.push(String::from_str("jssip"));
        let r = Whitelist::new(patterns);
        proof {
            reveal_strlit("freeswitch");
            reveal_strlit("microsip");
            reveal_strlit("telephone");
            reveal_strlit("jssip");
            assert(r.patterns_spec() =~~= default_patterns());
        }
        r
    }
}

} // verus!
