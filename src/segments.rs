use crate::prompt::Prompt;
use crate::text::{trim_text, trimmed};
use crate::theme::{strings_view, PromptContent};
use vstd::prelude::*;

verus! {

/// How the command of a segment ended, as the caller observed it.
#[derive(Clone, Debug)]
pub enum CommandOutcome {
    /// The command could not be started.
    NotStarted,
    /// The command ran; whether it exited successfully, and its standard
    /// output decoded as text.
    Finished { success: bool, stdout: String },
}

/// The characters of an optional text.
pub open spec fn opt_view(o: Option<String>) -> Option<Seq<char>> {
    match o {
        Some(s) => Some(s@),
        None => None,
    }
}

/// What a segment shows: nothing for an empty command, a command that could
/// not be started, an unsuccessful exit or a blank output; else its output
/// without surrounding white space.
pub open spec fn segment_value(argv: Seq<Seq<char>>, outcome: CommandOutcome) -> Option<Seq<char>> {
    if argv.len() == 0 {
        None
    } else {
        match outcome {
            CommandOutcome::NotStarted => None,
            CommandOutcome::Finished { success, stdout } => {
                if success && trimmed(stdout@).len() > 0 {
                    Some(trimmed(stdout@))
                } else {
                    None
                }
            },
        }
    }
}

impl PromptContent {
    /// Whether there is a command to run at all.
    pub fn launchable(&self) -> (r: bool)
        ensures
            r == (self.argv().len() > 0),
    {
        self.shell().len() > 0
    }

    /// The value of this segment once its command has ended as `outcome`
    /// says.
    pub fn content_from(&self, outcome: &CommandOutcome) -> (r: Option<String>)
        ensures
            opt_view(r) == segment_value(self.argv(), *outcome),
    {
        if !self.launchable() {
            return None;
        }
        match outcome {
            CommandOutcome::NotStarted => None,
            CommandOutcome::Finished { success, stdout } => {
                if !*success {
                    return None;
                }
                let t = trim_text(stdout.as_str());
                if t.unicode_len() == 0 {
                    None
                } else {
                    Some(t)
                }
            },
        }
    }
}

/// The present values of a list of optional texts, in their order.
pub open spec fn present_values(s: Seq<Option<Seq<char>>>) -> Seq<Seq<char>>
    decreases s.len(),
{
    if s.len() == 0 {
        Seq::empty()
    } else {
        present_values(s.drop_last()) + match s.last() {
            Some(t) => seq![t],
            None => Seq::empty(),
        }
    }
}

/// The characters of each optional text of a vector.
pub open spec fn opts_view(v: Seq<Option<String>>) -> Seq<Option<Seq<char>>> {
    v.map_values(|o: Option<String>| opt_view(o))
}

/// The present values of a list of segment results, in declaration order.
pub fn collect_present(results: &Vec<Option<String>>) -> (r: Vec<String>)
    ensures
        strings_view(r@) == present_values(opts_view(results@)),
{
    let mut out: Vec<String> = Vec::new();
    let n = results.len();
    let mut i: usize = 0;
    assert(opts_view(results@).take(0) =~= Seq::<Option<Seq<char>>>::empty());
    while i < n
        invariant
            n == results@.len(),
            i <= n,
            strings_view(out@) == present_values(opts_view(results@).take(i as int)),
        decreases n - i,
    {
        let ghost before = out@;
        assert(opts_view(results@).take(i + 1).drop_last() =~= opts_view(results@).take(i as int));
        assert(opts_view(results@).take(i + 1).last() == opt_view(results@[i as int]));
        match &results[i] {
            Some(s) => {
                out.push(s.clone());
                assert(strings_view(out@) =~= strings_view(before).push(s@));
            },
            None => {},
        }
        assert(strings_view(out@) =~= present_values(opts_view(results@).take(i + 1)));
        i = i + 1;
    }
    assert(opts_view(results@).take(n as int) =~= opts_view(results@));
    out
}

impl Prompt {
    /// A row showing the present values of the left and right segment
    /// results, each side in declaration order.
    pub fn from_segments(left: &Vec<Option<String>>, right: &Vec<Option<String>>) -> (r: Prompt)
        ensures
            r.left_items() == present_values(opts_view(left@)),
            r.right_items() == present_values(opts_view(right@)),
    {
        let l = collect_present(left);
        let rv = collect_present(right);
        let mut p = Prompt::new();
        let mut i: usize = 0;
        while i < l.len()
            invariant
                i <= l@.len(),
                p.left_items() == strings_view(l@).take(i as int),
                p.right_items() == Seq::<Seq<char>>::empty(),
            decreases l@.len() - i,
        {
            p.add_left(l[i].as_str());
            assert(strings_view(l@).take(i + 1) =~= strings_view(l@).take(i as int).push(l@[i as int]@));
            i = i + 1;
        }
        assert(strings_view(l@).take(l@.len() as int) =~= strings_view(l@));
        let mut j: usize = 0;
        while j < rv.len()
            invariant
                j <= rv@.len(),
                p.left_items() == strings_view(l@),
                p.right_items() == strings_view(rv@).take(j as int),
            decreases rv@.len() - j,
        {
            p.add_right(rv[j].as_str());
            assert(strings_view(rv@).take(j + 1) =~= strings_view(rv@).take(j as int).push(rv@[j as int]@));
            j = j + 1;
        }
        assert(strings_view(rv@).take(rv@.len() as int) =~= strings_view(rv@));
        p
    }
}

} // verus!
