use vstd::prelude::*;

verus! {

/// The views of a choice list: each entry an (id, display name) pair.
pub open spec fn choices_view(choices: Seq<(String, String)>) -> Seq<(Seq<char>, Seq<char>)> {
    choices.map_values(|c: (String, String)| (c.0@, c.1@))
}

/// The radio-list entry that is pre-selected: the suggested index when one
/// is given, and no entry at all otherwise.
pub open spec fn spec_selected(suggested: Option<usize>) -> Option<int> {
    match suggested {
        Some(d) => Some(d as int),
        None => None,
    }
}

/// What a selection dialog invocation looks like: the `kdialog` program, a
/// title, a radio-list description, and for each choice three arguments —
/// its id, its display name, and whether it starts selected. With no
/// selected position, every entry starts off.
pub open spec fn spec_dialog_is(
    d: Kdialog,
    title: Seq<char>,
    description: Seq<char>,
    choices: Seq<(Seq<char>, Seq<char>)>,
    selected: Option<int>,
) -> bool {
    &&& d.spec_exec() == "kdialog"@
    &&& d.spec_args().len() == 4 + 3 * choices.len()
    &&& d.spec_args()[0] == "--title"@
    &&& d.spec_args()[1] == title
    &&& d.spec_args()[2] == "--radiolist"@
    &&& d.spec_args()[3] == description
    &&& forall|k: int|
        0 <= k < choices.len() ==> {
            &&& #[trigger] d.spec_args()[4 + 3 * k] == choices[k].0
            &&& d.spec_args()[5 + 3 * k] == choices[k].1
            &&& d.spec_args()[6 + 3 * k] == (if selected == Some(k) {
                "on"@
            } else {
                "off"@
            })
        }
}

/// A fully assembled invocation of the `kdialog` selection prompt: the
/// program to run and its argument list.
pub struct Kdialog {
    program: String,
    args: Vec<String>,
}

impl Kdialog {
    pub closed spec fn spec_exec(self) -> Seq<char> {
        self.program@
    }

    pub closed spec fn spec_args(self) -> Seq<Seq<char>> {
        self.args.deep_view()
    }

    /// Assemble a radio-list prompt over `choices`, pre-selecting the
    /// suggested entry, or none at all when nothing is suggested.
    pub fn new(
        title: String,
        description: String,
        choices: Vec<(String, String)>,
        suggested: Option<usize>,
    ) -> (r: Kdialog)
        ensures
            spec_dialog_is(
                r,
                title@,
                description@,
                choices_view(choices@),
                spec_selected(suggested),
            ),
    {
        let mut args: Vec<String> = Vec::new();
        args.push("--title".to_owned());
        args.push(title);
        args.push("--radiolist".to_owned());
        args.push(description);
        let n = choices.len();
        for i in 0..n
            invariant
                n == choices@.len(),
                args@.len() == 4 + 3 * i,
                args@[0]@ == "--title"@,
                args@[1]@ == title@,
                args@[2]@ == "--radiolist"@,
                args@[3]@ == description@,
                forall|k: int| 0 <= k < i ==> #[trigger] args@[4 + 3 * k]@ == choices@[k].0@,
                forall|k: int| 0 <= k < i ==> #[trigger] args@[5 + 3 * k]@ == choices@[k].1@,
                forall|k: int|
                    0 <= k < i ==> #[trigger] args@[6 + 3 * k]@ == (if spec_selected(suggested)
                        == Some(k) {
                        "on"@
                    } else {
                        "off"@
                    }),
        {
            args.push(choices[i].0.clone());
            args.push(choices[i].1.clone());
            let marked = match suggested {
                Some(d) => i == d,
                None => false,
            };
            if marked {
                args.push("on".to_owned());
            } else {
                args.push("off".to_owned());
            }
            proof {
                let gi = i as int;
                assert(args@[4 + 3 * gi]@ == choices@[gi].0@);
                assert(args@[5 + 3 * gi]@ == choices@[gi].1@);
                assert(args@[6 + 3 * gi]@ == (if spec_selected(suggested) == Some(gi) {
                    "on"@
                } else {
                    "off"@
                }));
            }
        }
        let r = Kdialog { program: "kdialog".to_owned(), args };
        proof {
            assert forall|j: int| 0 <= j < r.args@.len() implies #[trigger] r.spec_args()[j]
                == r.args@[j]@ by {}
        }
        r
    }

    /// The program the prompt runs.
    pub fn program(&self) -> (r: &String)
        ensures
            r@ == self.spec_exec(),
    {
        &self.program
    }

    /// The assembled argument list.
    pub fn args(&self) -> (r: &Vec<String>)
        ensures
            r.deep_view() == self.spec_args(),
    {
        &self.args
    }
}

} // verus!
