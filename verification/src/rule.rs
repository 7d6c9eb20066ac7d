use vstd::prelude::*;
use crate::config::{RuleConfig, ValidationError};

verus! {

/// Whether `pattern` compiles as a regular expression under the regex
/// crate's default settings: valid syntax, and within the default size
/// limit. Compilation is deterministic, so this depends on the pattern
/// alone.
pub uninterp spec fn pattern_ok(pattern: Seq<char>) -> bool;

/// Whether the regular expression `pattern` matches anywhere in `text`
/// (unanchored, case-sensitive). The result depends on the two strings alone.
pub uninterp spec fn pattern_matches(pattern: Seq<char>, text: Seq<char>) -> bool;

/// The pattern a compiled regular expression was built from.
pub uninterp spec fn regex_source(re: regex::Regex) -> Seq<char>;

#[verifier::external_type_specification]
#[verifier::external_body]
pub struct ExRegex(regex::Regex);

/// Relies on regex::Regex::new: under default settings it succeeds on a
/// fixed set of patterns (valid syntax, within the default size limit), and
/// the compiled value matches as the pattern it was built from.
#[verifier::external_body]
fn regex_new(pattern: &str) -> (r: Option<regex::Regex>)
    ensures
        r is Some <==> pattern_ok(pattern@),
        r is Some ==> regex_source(r->0) == pattern@,
{
    regex::Regex::new(pattern).ok()
}

/// Relies on regex::Regex::is_match: true exactly when the compiled pattern
/// matches anywhere in `text`.
#[verifier::external_body]
fn regex_is_match(re: &regex::Regex, text: &str) -> (r: bool)
    ensures
        r == pattern_matches(regex_source(*re), text@),
{
    re.is_match(text)
}

/// One compiled routing rule: the compiled pattern, the pattern text it came
/// from, the target browser id, and the ambiguity flag.
pub struct Rule {
    regex: regex::Regex,
    pattern: String,
    browser: String,
    ambiguous: bool,
}

impl Rule {
    /// The compiled regular expression was really built from `pattern`.
    pub closed spec fn wf(self) -> bool {
        &&& pattern_ok(self.pattern@)
        &&& regex_source(self.regex) == self.pattern@
    }

    pub closed spec fn spec_pattern(self) -> Seq<char> {
        self.pattern@
    }

    pub closed spec fn spec_browser(self) -> Seq<char> {
        self.browser@
    }

    pub closed spec fn spec_ambiguous(self) -> bool {
        self.ambiguous
    }

    /// Compile one rule. Validation has already established that the
    /// pattern compiles.
    pub fn new(browser: String, regex: &str, ambiguous: bool) -> (r: Rule)
        requires
            pattern_ok(regex@),
        ensures
            r.wf(),
            r.spec_pattern() == regex@,
            r.spec_browser() == browser@,
            r.spec_ambiguous() == ambiguous,
    {
        let re = regex_new(regex).unwrap();
        Rule { regex: re, pattern: regex.to_owned(), browser, ambiguous }
    }

    /// Hold the rule against `url`: the target browser id and the ambiguity
    /// flag if the pattern matches, `None` otherwise.
    pub fn compare(&self, url: &String) -> (r: Option<(String, bool)>)
        requires
            self.wf(),
        ensures
            r is Some <==> pattern_matches(self.spec_pattern(), url@),
            r matches Some(p) ==> p.0@ == self.spec_browser() && p.1 == self.spec_ambiguous(),
    {
        if regex_is_match(&self.regex, url.as_str()) {
            Some((self.browser.clone(), self.ambiguous))
        } else {
            None
        }
    }
}

/// Compile every rule of the configuration, in order. Fails with
/// `InvalidPattern` at the first rule whose pattern does not compile.
pub fn generate(rules: &Vec<RuleConfig>) -> (r: Result<Vec<Rule>, ValidationError>)
    ensures
        r is Ok <==> (forall|i: int|
            0 <= i < rules@.len() ==> pattern_ok(#[trigger] rules@[i].regex@)),
        r matches Ok(v) ==> {
            &&& v@.len() == rules@.len()
            &&& forall|i: int|
                0 <= i < rules@.len() ==> {
                    &&& (#[trigger] v@[i]).wf()
                    &&& v@[i].spec_pattern() == rules@[i].regex@
                    &&& v@[i].spec_browser() == rules@[i].browser@
                    &&& v@[i].spec_ambiguous() == rules@[i].ambiguous
                }
        },
        r matches Err(e) ==> exists|j: int|
            {
                &&& 0 <= j < rules@.len()
                &&& !pattern_ok(rules@[j].regex@)
                &&& forall|k: int| 0 <= k < j ==> pattern_ok(#[trigger] rules@[k].regex@)
                &&& e == ValidationError::InvalidPattern(j as usize)
            },
{
    let mut out: Vec<Rule> = Vec::new();
    let n = rules.len();
    for i in 0..n
        invariant
            n == rules@.len(),
            out@.len() == i,
            forall|k: int| 0 <= k < i ==> pattern_ok(#[trigger] rules@[k].regex@),
            forall|k: int|
                0 <= k < i ==> {
                    &&& (#[trigger] out@[k]).wf()
                    &&& out@[k].spec_pattern() == rules@[k].regex@
                    &&& out@[k].spec_browser() == rules@[k].browser@
                    &&& out@[k].spec_ambiguous() == rules@[k].ambiguous
                },
    {
        let rc = &rules[i];
        if regex_new(rc.regex.as_str()).is_none() {
            return Err(ValidationError::InvalidPattern(i));
        }
        out.push(Rule::new(rc.browser.clone(), rc.regex.as_str(), rc.ambiguous));
    }
    Ok(out)
}

} // verus!
