use vstd::prelude::*;
use vstd::string::StringExecFns;
use crate::config::{
    BrowserConfig, Config, ExecConfig, ValidationError, has_browser, lookup, spec_lookup,
};
use crate::dialog::{Kdialog, spec_dialog_is, spec_selected};
use crate::rule::{Rule, generate, pattern_matches, pattern_ok};

verus! {

/// Why a dispatch failed: a rule or the resolver named a browser id that is
/// not a key of the browser table.
#[derive(Debug)]
pub enum DispatchError {
    UnknownBrowser(String),
}

/// What the dispatcher decided: launch this argv now, or show this prompt
/// first and launch what its answer resolves to.
pub enum Dispatch {
    Launch(Vec<String>),
    Prompt(Kdialog),
}

/// The view of an optional URL argument.
pub open spec fn opt_url_view(url: Option<&String>) -> Option<Seq<char>> {
    match url {
        Some(u) => Some(u@),
        None => None,
    }
}

/// The argv that starts `browser`: a desktop entry goes through the
/// `gtk-launch` helper with the entry id as argument, a direct command is
/// argv[0] itself; a URL, when present, is appended last.
pub open spec fn spec_argv(browser: BrowserConfig, url: Option<Seq<char>>) -> Seq<Seq<char>> {
    let base = match browser.launcher {
        ExecConfig::Desktop(d) => seq!["gtk-launch"@, d@],
        ExecConfig::Exec(e) => seq![e@],
    };
    match url {
        Some(u) => base.push(u),
        None => base,
    }
}

/// Build the argv that starts `browser`, appending `url` when present.
pub fn resolve_argv(browser: &BrowserConfig, url: Option<&String>) -> (r: Vec<String>)
    ensures
        r.deep_view() == spec_argv(*browser, opt_url_view(url)),
{
    let mut v: Vec<String> = Vec::new();
    match &browser.launcher {
        ExecConfig::Desktop(d) => {
            v.push("gtk-launch".to_owned());
            v.push(d.clone());
        },
        ExecConfig::Exec(e) => {
            v.push(e.clone());
        },
    }
    match url {
        Some(u) => v.push(u.clone()),
        None => (),
    }
    proof {
        assert(v.deep_view() =~~= spec_argv(*browser, opt_url_view(url)));
    }
    v
}

/// The first rule, in sequence order, whose pattern matches `url`: its
/// target browser id and ambiguity flag. `None` when no rule matches.
pub open spec fn spec_route(rules: Seq<Rule>, url: Seq<char>) -> Option<(Seq<char>, bool)>
    decreases rules.len(),
{
    if rules.len() == 0 {
        None
    } else if pattern_matches(rules[0].spec_pattern(), url) {
        Some((rules[0].spec_browser(), rules[0].spec_ambiguous()))
    } else {
        spec_route(rules.drop_first(), url)
    }
}

/// First-match-wins: when rule `i` matches `url` and no earlier rule does,
/// the engine selects rule `i`.
pub proof fn lemma_route_first_match(rules: Seq<Rule>, url: Seq<char>, i: int)
    requires
        0 <= i < rules.len(),
        pattern_matches(rules[i].spec_pattern(), url),
        forall|k: int| 0 <= k < i ==> !pattern_matches(#[trigger] rules[k].spec_pattern(), url),
    ensures
        spec_route(rules, url) == Some((rules[i].spec_browser(), rules[i].spec_ambiguous())),
    decreases i,
{
    if i > 0 {
        lemma_route_first_match(rules.drop_first(), url, i - 1);
    }
}

/// Order decides among rules that all match: with `a` before `b` the engine
/// selects `a`; with `b` before `a` it selects `b`.
pub proof fn lemma_route_order_decides(a: Rule, b: Rule, url: Seq<char>)
    requires
        pattern_matches(a.spec_pattern(), url),
        pattern_matches(b.spec_pattern(), url),
    ensures
        spec_route(seq![a, b], url) == Some((a.spec_browser(), a.spec_ambiguous())),
        spec_route(seq![b, a], url) == Some((b.spec_browser(), b.spec_ambiguous())),
{
}

/// The position of `id` in the prompt list, scanning from position `i`.
pub open spec fn spec_prompt_index_from(prompt: Seq<String>, id: Seq<char>, i: int) -> Option<int>
    decreases prompt.len() - i,
{
    if i < 0 || i >= prompt.len() {
        None
    } else if prompt[i]@ == id {
        Some(i)
    } else {
        spec_prompt_index_from(prompt, id, i + 1)
    }
}

/// The first position of `id` in the prompt list, if any.
pub open spec fn spec_prompt_index(prompt: Seq<String>, id: Seq<char>) -> Option<int> {
    spec_prompt_index_from(prompt, id, 0)
}

/// The choices the prompt offers: each prompt entry paired with the display
/// name of the browser it names.
pub open spec fn spec_choices(prompt: Seq<String>, browsers: Seq<(String, BrowserConfig)>) -> Seq<
    (Seq<char>, Seq<char>),
> {
    prompt.map_values(|p: String| (p@, spec_lookup(browsers, p@)->0.name@))
}

/// The description line the prompt shows for `url`.
pub open spec fn spec_prompt_description(url: Seq<char>) -> Seq<char> {
    "Choose a browser to open '"@ + url + "'"@
}

/// Whether a configuration passes validation: every rule pattern compiles,
/// the default browser id is a key of the browser table, and so is every
/// prompt entry.
pub open spec fn spec_config_valid(conf: Config) -> bool {
    &&& forall|i: int| 0 <= i < conf.rule@.len() ==> pattern_ok(#[trigger] conf.rule@[i].regex@)
    &&& has_browser(conf.browser@, conf.default@)
    &&& forall|i: int|
        0 <= i < conf.prompt@.len() ==> has_browser(conf.browser@, (#[trigger] conf.prompt@[i])@)
}

/// A validated application: the configuration with its rules compiled, known
/// to satisfy the construction-time invariants.
pub struct App {
    dialog: String,
    default: String,
    prompt: Vec<String>,
    browsers: Vec<(String, BrowserConfig)>,
    rules: Vec<Rule>,
}

impl App {
    #[verifier::type_invariant]
    spec fn wf(self) -> bool {
        &&& forall|i: int| 0 <= i < self.rules@.len() ==> (#[trigger] self.rules@[i]).wf()
        &&& has_browser(self.browsers@, self.default@)
        &&& forall|i: int|
            0 <= i < self.prompt@.len() ==> has_browser(self.browsers@, (#[trigger] self.prompt@[i])@)
    }

    pub closed spec fn spec_dialog(self) -> Seq<char> {
        self.dialog@
    }

    pub closed spec fn spec_default(self) -> Seq<char> {
        self.default@
    }

    pub closed spec fn spec_prompt(self) -> Seq<String> {
        self.prompt@
    }

    pub closed spec fn spec_browsers(self) -> Seq<(String, BrowserConfig)> {
        self.browsers@
    }

    pub closed spec fn spec_rules(self) -> Seq<Rule> {
        self.rules@
    }

    /// Validate a configuration and compile its rules. Fails with
    /// `InvalidPattern` at the first rule whose pattern does not compile,
    /// then with `UnknownDefaultBrowser` when the default browser id is not
    /// a key of the browser table, then with `UnknownPromptBrowser` at the
    /// first prompt entry that is not such a key.
    pub fn from_config(conf: Config) -> (r: Result<App, ValidationError>)
        ensures
            r is Ok <==> spec_config_valid(conf),
            r matches Ok(app) ==> {
                &&& app.spec_dialog() == conf.dialog@
                &&& app.spec_default() == conf.default@
                &&& app.spec_prompt() == conf.prompt@
                &&& app.spec_browsers() == conf.browser@
                &&& app.spec_rules().len() == conf.rule@.len()
                &&& forall|i: int|
                    0 <= i < conf.rule@.len() ==> {
                        &&& (#[trigger] app.spec_rules()[i]).spec_pattern() == conf.rule@[i].regex@
                        &&& app.spec_rules()[i].spec_browser() == conf.rule@[i].browser@
                        &&& app.spec_rules()[i].spec_ambiguous() == conf.rule@[i].ambiguous
                    }
            },
            r matches Err(e) ==> {
                ||| exists|j: int|
                    {
                        &&& 0 <= j < conf.rule@.len()
                        &&& !pattern_ok(conf.rule@[j].regex@)
                        &&& forall|k: int| 0 <= k < j ==> pattern_ok(#[trigger] conf.rule@[k].regex@)
                        &&& e == ValidationError::InvalidPattern(j as usize)
                    }
                ||| {
                    &&& forall|i: int|
                        0 <= i < conf.rule@.len() ==> pattern_ok(#[trigger] conf.rule@[i].regex@)
                    &&& !has_browser(conf.browser@, conf.default@)
                    &&& e == ValidationError::UnknownDefaultBrowser
                }
                ||| exists|j: int|
                    {
                        &&& forall|i: int|
                            0 <= i < conf.rule@.len() ==> pattern_ok(#[trigger] conf.rule@[i].regex@)
                        &&& has_browser(conf.browser@, conf.default@)
                        &&& 0 <= j < conf.prompt@.len()
                        &&& !has_browser(conf.browser@, conf.prompt@[j]@)
                        &&& forall|k: int|
                            0 <= k < j ==> has_browser(conf.browser@, (#[trigger] conf.prompt@[k])@)
                        &&& e matches ValidationError::UnknownPromptBrowser(s) && s@ == conf.prompt@[j]@
                    }
            },
    {
        let rules = match generate(&conf.rule) {
            Ok(v) => v,
            Err(e) => {
                return Err(e);
            },
        };
        if lookup(&conf.browser, &conf.default).is_none() {
            return Err(ValidationError::UnknownDefaultBrowser);
        }
        let np = conf.prompt.len();
        for i in 0..np
            invariant
                np == conf.prompt@.len(),
                forall|ii: int| 0 <= ii < conf.rule@.len() ==> pattern_ok(#[trigger] conf.rule@[ii].regex@),
                has_browser(conf.browser@, conf.default@),
                forall|k: int|
                    0 <= k < i ==> has_browser(conf.browser@, (#[trigger] conf.prompt@[k])@),
        {
            if lookup(&conf.browser, &conf.prompt[i]).is_none() {
                let err = ValidationError::UnknownPromptBrowser(conf.prompt[i].clone());
                proof {
                    let gj = i as int;
                    assert({
                        &&& forall|ii: int|
                            0 <= ii < conf.rule@.len() ==> pattern_ok(
                                #[trigger] conf.rule@[ii].regex@,
                            )
                        &&& has_browser(conf.browser@, conf.default@)
                        &&& 0 <= gj < conf.prompt@.len()
                        &&& !has_browser(conf.browser@, conf.prompt@[gj]@)
                        &&& forall|k: int|
                            0 <= k < gj ==> has_browser(conf.browser@, (#[trigger] conf.prompt@[k])@)
                        &&& err matches ValidationError::UnknownPromptBrowser(s) && s@
                            == conf.prompt@[gj]@
                    });
                }
                return Err(err);
            }
        }
        Ok(
            App {
                dialog: conf.dialog,
                default: conf.default,
                prompt: conf.prompt,
                browsers: conf.browser,
                rules,
            },
        )
    }

    /// Hold `url` against the rules in order: the first match wins; no
    /// match means no routing decision.
    pub fn route(&self, url: &String) -> (r: Option<(String, bool)>)
        ensures
            r is Some <==> spec_route(self.spec_rules(), url@) is Some,
            r matches Some(p) ==> spec_route(self.spec_rules(), url@) == Some((p.0@, p.1)),
    {
        proof {
            use_type_invariant(&*self);
        }
        let n = self.rules.len();
        for i in 0..n
            invariant
                n == self.rules@.len(),
                forall|k: int| 0 <= k < self.rules@.len() ==> (#[trigger] self.rules@[k]).wf(),
                forall|k: int|
                    0 <= k < i ==> !pattern_matches(
                        (#[trigger] self.rules@[k]).spec_pattern(),
                        url@,
                    ),
        {
            let m = self.rules[i].compare(url);
            if let Some(p) = m {
                proof {
                    lemma_route_first_match(self.rules@, url@, i as int);
                }
                return Some(p);
            }
        }
        proof {
            lemma_route_no_match(self.rules@, url@);
        }
        None
    }

    /// Dispatch an optional URL. With no URL the default browser is started
    /// bare. With a URL, the first matching rule decides: an unambiguous
    /// match launches its browser directly, an ambiguous one yields the
    /// selection prompt over the configured prompt list with the rule's
    /// browser pre-selected where the prompt list holds it (nothing is
    /// pre-selected where it does not), and no match falls back to the default browser
    /// without a prompt. A matching rule whose browser id is not a key of
    /// the browser table fails the dispatch.
    pub fn open(&self, url: Option<&String>) -> (r: Result<Dispatch, DispatchError>)
        ensures
            url is None ==> (r matches Ok(d) && d matches Dispatch::Launch(v) && v.deep_view()
                == spec_argv(
                spec_lookup(self.spec_browsers(), self.spec_default())->0,
                None::<Seq<char>>,
            )),
            url matches Some(u) ==> {
                let m = spec_route(self.spec_rules(), u@);
                &&& m is None ==> (r matches Ok(d) && d matches Dispatch::Launch(v)
                    && v.deep_view() == spec_argv(
                    spec_lookup(self.spec_browsers(), self.spec_default())->0,
                    Some(u@),
                ))
                &&& m matches Some(p) ==> {
                    &&& !p.1 ==> match spec_lookup(self.spec_browsers(), p.0) {
                        Some(b) => r matches Ok(d) && d matches Dispatch::Launch(v)
                            && v.deep_view() == spec_argv(b, Some(u@)),
                        None => r matches Err(e) && e matches DispatchError::UnknownBrowser(s)
                            && s@ == p.0,
                    }
                    &&& p.1 ==> (r matches Ok(d) && d matches Dispatch::Prompt(k)
                        && spec_dialog_is(
                        k,
                        "Select browser"@,
                        spec_prompt_description(u@),
                        spec_choices(self.spec_prompt(), self.spec_browsers()),
                        spec_prompt_index(self.spec_prompt(), p.0),
                    ))
                }
            },
    {
        proof {
            use_type_invariant(&*self);
        }
        match url {
            None => {
                let b = match lookup(&self.browsers, &self.default) {
                    Some(b) => b,
                    None => unreached(),
                };
                Ok(Dispatch::Launch(resolve_argv(b, None)))
            },
            Some(u) => {
                match self.route(u) {
                    None => {
                        let b = match lookup(&self.browsers, &self.default) {
                            Some(b) => b,
                            None => unreached(),
                        };
                        Ok(Dispatch::Launch(resolve_argv(b, Some(u))))
                    },
                    Some((browser, ambiguous)) => {
                        if !ambiguous {
                            match lookup(&self.browsers, &browser) {
                                Some(b) => Ok(Dispatch::Launch(resolve_argv(b, Some(u)))),
                                None => Err(DispatchError::UnknownBrowser(browser)),
                            }
                        } else {
                            Ok(Dispatch::Prompt(self.build_prompt(u, &browser)))
                        }
                    },
                }
            },
        }
    }

    /// Assemble the selection prompt for `url`, pre-selecting `browser`
    /// where it stands in the prompt list, and nothing when it does not.
    fn build_prompt(&self, url: &String, browser: &String) -> (r: Kdialog)
        ensures
            spec_dialog_is(
                r,
                "Select browser"@,
                spec_prompt_description(url@),
                spec_choices(self.spec_prompt(), self.spec_browsers()),
                spec_prompt_index(self.spec_prompt(), browser@),
            ),
    {
        proof {
            use_type_invariant(&*self);
        }
        let np = self.prompt.len();
        let mut choices: Vec<(String, String)> = Vec::new();
        for i in 0..np
            invariant
                np == self.prompt@.len(),
                forall|k: int|
                    0 <= k < self.prompt@.len() ==> has_browser(
                        self.browsers@,
                        (#[trigger] self.prompt@[k])@,
                    ),
                choices@.len() == i,
                forall|k: int|
                    0 <= k < i ==> {
                        &&& (#[trigger] choices@[k]).0@ == self.prompt@[k]@
                        &&& choices@[k].1@ == spec_lookup(self.browsers@, self.prompt@[k]@)->0.name@
                    },
        {
            let p = &self.prompt[i];
            let b = match lookup(&self.browsers, p) {
                Some(b) => b,
                None => unreached(),
            };
            choices.push((p.clone(), b.name.clone()));
        }
        let mut suggested: Option<usize> = None;
        for i in 0..np
            invariant
                np == self.prompt@.len(),
                match suggested {
                    Some(j) => spec_prompt_index(self.prompt@, browser@) == Some(j as int),
                    None => spec_prompt_index_from(self.prompt@, browser@, 0)
                        == spec_prompt_index_from(self.prompt@, browser@, i as int),
                },
        {
            if suggested.is_none() && self.prompt[i] == *browser {
                suggested = Some(i);
            }
        }
        proof {
            if suggested is None {
                assert(spec_prompt_index_from(self.prompt@, browser@, np as int) is None);
            }
            assert(spec_selected(suggested) == spec_prompt_index(self.prompt@, browser@));
            assert(crate::dialog::choices_view(choices@) =~~= spec_choices(
                self.spec_prompt(),
                self.spec_browsers(),
            ));
        }
        let mut description = String::from_str("Choose a browser to open '");
        description.append(url.as_str());
        description.append("'");
        proof {
            assert(description@ =~= spec_prompt_description(url@));
        }
        Kdialog::new(String::from_str("Select browser"), description, choices, suggested)
    }

    /// Resolve the id the prompt answered with: the argv that launches that
    /// browser with `url`, or a failure when the id is not a key of the
    /// browser table. The answer may name any browser, not only the rule's
    /// own target.
    pub fn resolve_choice(&self, chosen: &String, url: &String) -> (r: Result<
        Vec<String>,
        DispatchError,
    >)
        ensures
            match spec_lookup(self.spec_browsers(), chosen@) {
                Some(b) => r matches Ok(v) && v.deep_view() == spec_argv(b, Some(url@)),
                None => r matches Err(e) && e matches DispatchError::UnknownBrowser(s) && s@
                    == chosen@,
            },
    {
        match lookup(&self.browsers, chosen) {
            Some(b) => Ok(resolve_argv(b, Some(url))),
            None => Err(DispatchError::UnknownBrowser(chosen.clone())),
        }
    }
}

/// A rule list that rejects `url` everywhere routes it nowhere.
pub proof fn lemma_route_no_match(rules: Seq<Rule>, url: Seq<char>)
    requires
        forall|k: int| 0 <= k < rules.len() ==> !pattern_matches(
            (#[trigger] rules[k]).spec_pattern(),
            url,
        ),
    ensures
        spec_route(rules, url) is None,
    decreases rules.len(),
{
    if rules.len() > 0 {
        lemma_route_no_match(rules.drop_first(), url);
    }
}

} // verus!
