use vstd::prelude::*;

verus! {

/// How one configured browser is started: through a desktop-entry helper
/// (`gtk-launch <entry>`), or by running a program directly.
pub enum ExecConfig {
    Desktop(String),
    Exec(String),
}

/// One configured browser: a display name and the way to start it.
pub struct BrowserConfig {
    pub name: String,
    pub launcher: ExecConfig,
}

/// One routing rule as it stands in the configuration: a regular-expression
/// pattern, the id of the browser it routes to, and whether a match still
/// needs interactive confirmation.
pub struct RuleConfig {
    pub regex: String,
    pub browser: String,
    pub ambiguous: bool,
}

/// A rule that does not say otherwise is unambiguous.
pub fn default_ambiguous() -> (r: bool)
    ensures
        r == false,
{
    false
}

/// The whole configuration: the dialog program id, the fallback browser id,
/// the ordered list of ids offered by the ambiguity prompt, the browsers
/// keyed by id, and the ordered rule list (highest priority first). The
/// browser table is an association list; should two entries carry one key,
/// every lookup takes the first.
pub struct Config {
    pub dialog: String,
    pub default: String,
    pub prompt: Vec<String>,
    pub browser: Vec<(String, BrowserConfig)>,
    pub rule: Vec<RuleConfig>,
}

/// Why a configuration was rejected at validation time.
#[derive(Debug)]
pub enum ValidationError {
    /// The rule at this position holds a pattern that does not compile as
    /// a regular expression.
    InvalidPattern(usize),
    /// The configured default browser id is not a key of the browser table.
    UnknownDefaultBrowser,
    /// This prompt entry is not a key of the browser table.
    UnknownPromptBrowser(String),
}

/// The browser entry stored under `id`: the first pair whose key is `id`.
pub open spec fn spec_lookup(browsers: Seq<(String, BrowserConfig)>, id: Seq<char>) -> Option<
    BrowserConfig,
>
    decreases browsers.len(),
{
    if browsers.len() == 0 {
        None
    } else if browsers[0].0@ == id {
        Some(browsers[0].1)
    } else {
        spec_lookup(browsers.drop_first(), id)
    }
}

/// Whether `id` is a key of the browser table.
pub open spec fn has_browser(browsers: Seq<(String, BrowserConfig)>, id: Seq<char>) -> bool {
    spec_lookup(browsers, id) is Some
}

proof fn lemma_lookup_step(browsers: Seq<(String, BrowserConfig)>, id: Seq<char>, i: int)
    requires
        0 <= i < browsers.len(),
        browsers[i].0@ != id,
    ensures
        spec_lookup(browsers.skip(i), id) == spec_lookup(browsers.skip(i + 1), id),
{
    assert(browsers.skip(i).drop_first() =~= browsers.skip(i + 1));
    assert(browsers.skip(i)[0] == browsers[i]);
}

proof fn lemma_lookup_prefix(browsers: Seq<(String, BrowserConfig)>, id: Seq<char>, i: int)
    requires
        0 <= i <= browsers.len(),
        forall|k: int| 0 <= k < i ==> browsers[k].0@ != id,
    ensures
        spec_lookup(browsers, id) == spec_lookup(browsers.skip(i), id),
    decreases i,
{
    if i > 0 {
        lemma_lookup_prefix(browsers, id, i - 1);
        lemma_lookup_step(browsers, id, i - 1);
    } else {
        assert(browsers.skip(0) =~= browsers);
    }
}

/// Find the browser entry stored under `id`, scanning the table in order.
pub fn lookup<'a>(browsers: &'a Vec<(String, BrowserConfig)>, id: &String) -> (r: Option<
    &'a BrowserConfig,
>)
    ensures
        match r {
            Some(b) => spec_lookup(browsers@, id@) == Some(*b),
            None => spec_lookup(browsers@, id@) is None,
        },
{
    let n = browsers.len();
    for i in 0..n
        invariant
            n == browsers@.len(),
            forall|k: int| 0 <= k < i ==> browsers@[k].0@ != id@,
    {
        if browsers[i].0 == *id {
            proof {
                lemma_lookup_prefix(browsers@, id@, i as int);
                assert(browsers@.skip(i as int)[0] == browsers@[i as int]);
            }
            return Some(&browsers[i].1);
        }
    }
    proof {
        lemma_lookup_prefix(browsers@, id@, n as int);
        assert(browsers@.skip(n as int) =~= Seq::<(String, BrowserConfig)>::empty());
    }
    None
}

} // verus!
