use crate::recipe::{Script, Step};
use crate::text::{
    chars_of, join, joined, lines_of, slice_starts_with, split_lines, starts_with, string_views,
};
use vstd::prelude::*;

verus! {

/// Environment lines that a breakpoint shell keeps: no shebang, no `set -`
/// flags, no `TERM=` assignment.
pub open spec fn keep_env_line(l: Seq<char>) -> bool {
    !starts_with(l, "#!"@) && !starts_with(l, "set -"@) && !starts_with(l, "TERM="@)
}

/// An exported shell function `a_<id>` with the action's body
pub open spec fn action_function(id: Seq<char>, body: Seq<char>) -> Seq<char> {
    "a_"@ + id + "() {\n"@ + body + "\n}\nexport -f a_"@ + id
}

/// An exported shell variable `d_<id>` with the definition's value
pub open spec fn definition_var(id: Seq<char>, value: Seq<char>) -> Seq<char> {
    "d_"@ + id + "=\""@ + value + "\"; export d_"@ + id
}

/// The texts of a list of pairs of strings
pub open spec fn pair_views(v: Seq<(String, String)>) -> Seq<(Seq<char>, Seq<char>)> {
    v.map_values(|p: (String, String)| (p.0@, p.1@))
}

/// The `.profile` of a breakpoint shell: filtered environment lines, then the
/// action functions, then the definition variables, each part's entries on
/// lines of their own.
pub open spec fn profile_spec(
    env_lines: Seq<Seq<char>>,
    actions: Seq<(Seq<char>, Seq<char>)>,
    definitions: Seq<(Seq<char>, Seq<char>)>,
) -> Seq<char> {
    joined(env_lines.filter(|l: Seq<char>| keep_env_line(l)), "\n"@) + "\n"@ + joined(
        actions.map_values(|p: (Seq<char>, Seq<char>)| action_function(p.0, p.1)),
        "\n"@,
    ) + "\n"@ + joined(
        definitions.map_values(|p: (Seq<char>, Seq<char>)| definition_var(p.0, p.1)),
        "\n"@,
    )
}

fn keep_line(line: &String) -> (r: bool)
    ensures
        r == keep_env_line(line@),
{
    let l = chars_of(line.as_str());
    let shebang = chars_of("#!");
    let set = chars_of("set -");
    let term = chars_of("TERM=");
    !slice_starts_with(l.as_slice(), shebang.as_slice()) && !slice_starts_with(
        l.as_slice(),
        set.as_slice(),
    ) && !slice_starts_with(l.as_slice(), term.as_slice())
}

proof fn lemma_filter_prefix(s: Seq<Seq<char>>, i: int)
    requires
        0 <= i < s.len(),
    ensures
        s.subrange(0, i + 1).filter(|l: Seq<char>| keep_env_line(l)) == if keep_env_line(s[i]) {
            s.subrange(0, i).filter(|l: Seq<char>| keep_env_line(l)).push(s[i])
        } else {
            s.subrange(0, i).filter(|l: Seq<char>| keep_env_line(l))
        },
{
    reveal(Seq::filter);
    let t = s.subrange(0, i + 1);
    assert(t.drop_last() =~= s.subrange(0, i));
}

/// Builds the `.profile` of a breakpoint shell from the lines of the
/// script's environment and its resolved actions and definitions.
pub fn profile_from_lines(
    env_lines: &Vec<String>,
    actions: &Vec<(String, String)>,
    definitions: &Vec<(String, String)>,
) -> (r: String)
    ensures
        r@ == profile_spec(string_views(env_lines@), pair_views(actions@), pair_views(definitions@)),
{
    let ghost ls = string_views(env_lines@);
    let mut kept: Vec<String> = Vec::new();
    let mut i: usize = 0;
    proof {
        reveal(Seq::filter);
        assert(ls.subrange(0, 0).filter(|l: Seq<char>| keep_env_line(l)) =~= Seq::<
            Seq<char>,
        >::empty());
        assert(string_views(kept@) =~= Seq::<Seq<char>>::empty());
    }
    while i < env_lines.len()
        invariant
            i <= env_lines@.len(),
            ls == string_views(env_lines@),
            string_views(kept@) == ls.subrange(0, i as int).filter(
                |l: Seq<char>| keep_env_line(l),
            ),
        decreases env_lines@.len() - i,
    {
        proof {
            lemma_filter_prefix(ls, i as int);
        }
        if keep_line(&env_lines[i]) {
            kept.push(env_lines[i].clone());
            assert(string_views(kept@) =~= ls.subrange(0, i as int).filter(
                |l: Seq<char>| keep_env_line(l),
            ).push(ls[i as int]));
        }
        i = i + 1;
    }
    assert(ls.subrange(0, env_lines@.len() as int) =~= ls);
    let ghost av = pair_views(actions@);
    let mut funcs: Vec<String> = Vec::new();
    let mut i: usize = 0;
    while i < actions.len()
        invariant
            i <= actions@.len(),
            av == pair_views(actions@),
            string_views(funcs@) =~= av.subrange(0, i as int).map_values(
                |p: (Seq<char>, Seq<char>)| action_function(p.0, p.1),
            ),
        decreases actions@.len() - i,
    {
        let (id, body) = (&actions[i].0, &actions[i].1);
        let mut f = "a_".to_owned();
        f.append(id.as_str());
        f.append("() {\n");
        f.append(body.as_str());
        f.append("\n}\nexport -f a_");
        f.append(id.as_str());
        assert(f@ == action_function(av[i as int].0, av[i as int].1));
        let ghost prev = string_views(funcs@);
        funcs.push(f);
        assert(string_views(funcs@) =~= prev.push(f@));
        i = i + 1;
        assert(av.subrange(0, i as int) =~= av.subrange(0, i - 1).push(av[i - 1]));
    }
    assert(av.subrange(0, actions@.len() as int) =~= av);
    let ghost dv = pair_views(definitions@);
    let mut vars: Vec<String> = Vec::new();
    let mut i: usize = 0;
    while i < definitions.len()
        invariant
            i <= definitions@.len(),
            dv == pair_views(definitions@),
            string_views(vars@) =~= dv.subrange(0, i as int).map_values(
                |p: (Seq<char>, Seq<char>)| definition_var(p.0, p.1),
            ),
        decreases definitions@.len() - i,
    {
        let (id, value) = (&definitions[i].0, &definitions[i].1);
        let mut v = "d_".to_owned();
        v.append(id.as_str());
        v.append("=\"");
        v.append(value.as_str());
        v.append("\"; export d_");
        v.append(id.as_str());
        assert(v@ == definition_var(dv[i as int].0, dv[i as int].1));
        let ghost prev = string_views(vars@);
        vars.push(v);
        assert(string_views(vars@) =~= prev.push(v@));
        i = i + 1;
        assert(dv.subrange(0, i as int) =~= dv.subrange(0, i - 1).push(dv[i - 1]));
    }
    assert(dv.subrange(0, definitions@.len() as int) =~= dv);
    let mut r = join(&kept, "\n");
    r.append("\n");
    let a = join(&funcs, "\n");
    r.append(a.as_str());
    r.append("\n");
    let d = join(&vars, "\n");
    r.append(d.as_str());
    r
}

/// The `.profile` written for a breakpoint shell of a script
pub fn build_profile(script: &Script) -> (r: String)
    ensures
        r@ == profile_spec(
            lines_of(
                match script.env {
                    Some(e) => e@,
                    None => ""@,
                },
            ),
            pair_views(script.resolved_actions@),
            pair_views(script.resolved_definitions@),
        ),
{
    let lines = match &script.env {
        Some(e) => split_lines(e.as_str()),
        None => split_lines(""),
    };
    profile_from_lines(&lines, &script.resolved_actions, &script.resolved_definitions)
}

/// The tag before each log line of a step's output
pub open spec fn log_tag(step: Step, is_pgo: bool) -> Seq<char> {
    "│"@ + (if is_pgo {
        "│"@
    } else {
        Seq::empty()
    }) + "│"@ + step.spec_abbrev() + "│"@
}

/// A line of a step's output, tagged with the step and whether the job is a
/// PGO stage
pub fn annotate(step: Step, is_pgo: bool, line: &str) -> (r: String)
    ensures
        r@ == log_tag(step, is_pgo) + " "@ + line@,
{
    let mut r = "│".to_owned();
    if is_pgo {
        r.append("│");
    }
    r.append("│");
    r.append(step.abbrev());
    r.append("│");
    r.append(" ");
    r.append(line);
    proof {
        if is_pgo {
            assert(r@ =~= log_tag(step, is_pgo) + " "@ + line@);
        } else {
            assert(r@ =~= log_tag(step, is_pgo) + " "@ + line@);
        }
    }
    r
}

} // verus!
