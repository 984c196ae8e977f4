use crate::text::{decimal_digits, push_decimal, string_of, string_views};
use crate::recipe::{
    canonical_steps, BuildTarget, Breakpoint, PgoStage, Recipe, Script, ScriptView, Step,
};
use vstd::prelude::*;

verus! {

/// Where builds live inside the sandbox
#[derive(Debug, Clone)]
pub struct Paths {
    /// Guest directory under which each job gets its build directory
    pub build_root: String,
}

/// The plan unit: one target at one PGO stage, with its steps in order
#[derive(Debug)]
pub struct Job {
    pub target: BuildTarget,
    pub pgo_stage: Option<PgoStage>,
    pub build_dir: String,
    pub work_dir: String,
    pub steps: Vec<(Step, Script)>,
}

/// The jobs of one build target, in PGO stage order
#[derive(Debug)]
pub struct Target {
    pub build_target: BuildTarget,
    pub jobs: Vec<Job>,
}

/// A recipe expanded into its ordered plan of jobs
#[derive(Debug)]
pub struct Builder {
    pub targets: Vec<Target>,
    pub recipe: Recipe,
    pub paths: Paths,
    pub ccache: bool,
}

/// Why a build cannot be planned
#[derive(Debug, Clone, Copy, PartialEq, Eq, Structural)]
pub enum Error {
    NoBuildTargets,
}

/// The build directory of a target at a stage
pub open spec fn build_dir_of(root: Seq<char>, target: BuildTarget, stage: Option<PgoStage>) -> Seq<
    char,
> {
    root + "/"@ + target.spec_name() + match stage {
        Some(s) => "-pgo-"@ + s.spec_name(),
        None => Seq::empty(),
    }
}

/// The work directory inside a build directory
pub open spec fn work_dir_of(build_dir: Seq<char>) -> Seq<char> {
    build_dir + "/work"@
}

/// The steps of a job: the canonical order, restricted to the declared steps
pub open spec fn planned_steps(declared: Seq<Step>) -> Seq<Step> {
    canonical_steps().filter(|s: Step| declared.contains(s))
}

/// The steps of a list of step scripts
pub open spec fn steps_of(v: Seq<(Step, Script)>) -> Seq<Step> {
    v.map_values(|p: (Step, Script)| p.0)
}

/// The script that the first declaration of `step` gives
pub open spec fn script_for(declared: Seq<(Step, Script)>, step: Step) -> ScriptView
    decreases declared.len(),
{
    if declared.len() == 0 {
        arbitrary()
    } else if declared[0].0 == step {
        declared[0].1.view()
    } else {
        script_for(declared.drop_first(), step)
    }
}

/// The stages a recipe's targets are built in: one without PGO, else the
/// declared stages in order
pub open spec fn stages_of(recipe: Recipe) -> Seq<Option<PgoStage>> {
    match recipe.pgo_stages {
        None => seq![None],
        Some(v) => v@.map_values(|s: PgoStage| Some(s)),
    }
}

impl Job {
    /// The job of `target` at `stage` with the given declared step scripts:
    /// the declared steps in canonical order, each with the script of its
    /// first declaration
    pub open spec fn planned(
        self,
        root: Seq<char>,
        target: BuildTarget,
        stage: Option<PgoStage>,
        declared: Seq<(Step, Script)>,
    ) -> bool {
        &&& self.target == target
        &&& self.pgo_stage == stage
        &&& self.build_dir@ == build_dir_of(root, target, stage)
        &&& self.work_dir@ == work_dir_of(build_dir_of(root, target, stage))
        &&& steps_of(self.steps@) == planned_steps(steps_of(declared))
        &&& forall|k: int|
            0 <= k < self.steps@.len() ==> (#[trigger] self.steps@[k]).1.view() == script_for(
                declared,
                self.steps@[k].0,
            )
    }

    pub fn new(
        target: BuildTarget,
        stage: Option<PgoStage>,
        declared: &Vec<(Step, Script)>,
        paths: &Paths,
    ) -> (r: Job)
        ensures
            r.planned(paths.build_root@, target, stage, declared@),
    {
        let mut build_dir = paths.build_root.clone();
        build_dir.append("/");
        let name = target.name();
        build_dir.append(name.as_str());
        if let Some(s) = stage {
            build_dir.append("-pgo-");
            build_dir.append(s.name());
        }
        proof {
            if let Some(s) = stage {
                assert(build_dir@ =~= build_dir_of(paths.build_root@, target, stage));
            } else {
                assert(build_dir@ =~= build_dir_of(paths.build_root@, target, stage));
            }
        }
        let mut work_dir = build_dir.clone();
        work_dir.append("/work");
        let steps = order_steps(declared);
        Job { target, pgo_stage: stage, build_dir, work_dir, steps }
    }

    /// The side directory that PGO stages keep their profile data in
    pub open spec fn spec_pgo_dir(self) -> Option<Seq<char>> {
        match self.pgo_stage {
            Some(_) => Some(self.build_dir@ + "-pgo"@),
            None => None,
        }
    }

    pub fn pgo_dir(&self) -> (r: Option<String>)
        ensures
            match r {
                Some(d) => self.spec_pgo_dir() == Some(d@),
                None => self.spec_pgo_dir() is None,
            },
    {
        match self.pgo_stage {
            Some(_) => {
                let mut d = self.build_dir.clone();
                d.append("-pgo");
                Some(d)
            },
            None => None,
        }
    }

    /// The directory a step's commands run in: the work directory if it
    /// exists, else the build directory
    pub fn current_dir(&self, work_dir_exists: bool) -> (r: &String)
        ensures
            r@ == if work_dir_exists {
                self.work_dir@
            } else {
                self.build_dir@
            },
    {
        if work_dir_exists {
            &self.work_dir
        } else {
            &self.build_dir
        }
    }
}

proof fn lemma_filter_step(s: Seq<Step>, declared: Seq<Step>, i: int)
    requires
        0 <= i < s.len(),
    ensures
        s.subrange(0, i + 1).filter(|x: Step| declared.contains(x)) == if declared.contains(s[i]) {
            s.subrange(0, i).filter(|x: Step| declared.contains(x)).push(s[i])
        } else {
            s.subrange(0, i).filter(|x: Step| declared.contains(x))
        },
{
    reveal(Seq::filter);
    let t = s.subrange(0, i + 1);
    assert(t.drop_last() =~= s.subrange(0, i));
    assert(t.last() == s[i]);
}

/// Finds the script declared for a step, if any
fn find_step(declared: &Vec<(Step, Script)>, step: Step) -> (r: Option<usize>)
    ensures
        r matches Some(i) ==> i < declared@.len() && declared@[i as int].0 == step
            && declared@[i as int].1.view() == script_for(declared@, step),
        r is None <==> !steps_of(declared@).contains(step),
{
    let mut i: usize = 0;
    assert(declared@.subrange(0, declared@.len() as int) =~= declared@);
    while i < declared.len()
        invariant
            i <= declared@.len(),
            forall|j: int| 0 <= j < i ==> declared@[j].0 != step,
            script_for(declared@, step) == script_for(
                declared@.subrange(i as int, declared@.len() as int),
                step,
            ),
        decreases declared@.len() - i,
    {
        if declared[i].0 == step {
            assert(steps_of(declared@)[i as int] == step);
            assert(declared@.subrange(i as int, declared@.len() as int)[0] == declared@[i as int]);
            return Some(i);
        }
        assert(declared@.subrange(i as int, declared@.len() as int).drop_first()
            =~= declared@.subrange(i + 1, declared@.len() as int));
        i = i + 1;
    }
    assert(!steps_of(declared@).contains(step)) by {
        if steps_of(declared@).contains(step) {
            let k = choose|k: int| 0 <= k < steps_of(declared@).len() && steps_of(declared@)[k] == step;
            assert(declared@[k].0 == step);
        }
    }
    None
}

/// Puts the declared steps in canonical order, one script per step
fn order_steps(declared: &Vec<(Step, Script)>) -> (r: Vec<(Step, Script)>)
    ensures
        steps_of(r@) == planned_steps(steps_of(declared@)),
        forall|k: int|
            0 <= k < r@.len() ==> (#[trigger] r@[k]).1.view() == script_for(declared@, r@[k].0),
{
    let order = [Step::Prepare, Step::Setup, Step::Build, Step::Install, Step::Check, Step::Workload];
    assert(order@ =~= canonical_steps());
    let ghost d = steps_of(declared@);
    let mut r: Vec<(Step, Script)> = Vec::new();
    let mut i: usize = 0;
    proof {
        reveal(Seq::filter);
        assert(canonical_steps().subrange(0, 0).filter(|x: Step| d.contains(x)) =~= Seq::<
            Step,
        >::empty());
    }
    while i < 6
        invariant
            i <= 6,
            order@ == canonical_steps(),
            d == steps_of(declared@),
            steps_of(r@) == canonical_steps().subrange(0, i as int).filter(|x: Step| d.contains(x)),
            forall|k: int|
                0 <= k < r@.len() ==> (#[trigger] r@[k]).1.view() == script_for(declared@, r@[k].0),
        decreases 6 - i,
    {
        let step = order[i];
        proof {
            lemma_filter_step(canonical_steps(), d, i as int);
        }
        match find_step(declared, step) {
            Some(k) => {
                let script = declared[k].1.duplicate();
                r.push((step, script));
                assert(steps_of(r@) =~= canonical_steps().subrange(0, i as int).filter(
                    |x: Step| d.contains(x),
                ).push(step));
            },
            None => {},
        }
        i = i + 1;
    }
    assert(canonical_steps().subrange(0, 6) =~= canonical_steps());
    r
}

impl Builder {
    /// Every target of the recipe, in order, with one job per stage
    pub open spec fn spec_planned(self, recipe: Recipe, root: Seq<char>) -> bool {
        let stages = stages_of(recipe);
        &&& self.targets@.len() == recipe.targets@.len()
        &&& forall|t: int|
            0 <= t < self.targets@.len() ==> {
                let target = #[trigger] self.targets@[t];
                let spec = recipe.targets@[t];
                &&& target.build_target == spec.build_target
                &&& target.jobs@.len() == stages.len()
                &&& forall|j: int|
                    0 <= j < stages.len() ==> (#[trigger] target.jobs@[j]).planned(
                        root,
                        spec.build_target,
                        stages[j],
                        spec.steps@,
                    )
            }
    }

    /// Expands a recipe into its plan: for each build target, in order, one
    /// job per PGO stage (a single job without PGO). Fails when the recipe
    /// has no build target.
    pub fn new(recipe: Recipe, paths: Paths, ccache: bool) -> (r: Result<Builder, Error>)
        ensures
            recipe.targets@.len() == 0 <==> r is Err,
            r is Err ==> r == Err::<Builder, Error>(Error::NoBuildTargets),
            r matches Ok(b) ==> b.spec_planned(recipe, paths.build_root@) && b.ccache == ccache
                && b.paths.build_root@ == paths.build_root@ && b.recipe == recipe,
    {
        if recipe.targets.len() == 0 {
            return Err(Error::NoBuildTargets);
        }
        let stages: Vec<Option<PgoStage>> = match &recipe.pgo_stages {
            None => vec![None],
            Some(v) => {
                let mut s: Vec<Option<PgoStage>> = Vec::new();
                let mut k: usize = 0;
                while k < v.len()
                    invariant
                        k <= v@.len(),
                        s@ == v@.subrange(0, k as int).map_values(|x: PgoStage| Some(x)),
                    decreases v@.len() - k,
                {
                    s.push(Some(v[k]));
                    k = k + 1;
                    assert(s@ =~= v@.subrange(0, k as int).map_values(|x: PgoStage| Some(x)));
                }
                assert(v@.subrange(0, v@.len() as int) =~= v@);
                s
            },
        };
        assert(stages@ =~= stages_of(recipe));
        let ghost root = paths.build_root@;
        let mut targets: Vec<Target> = Vec::new();
        let mut t: usize = 0;
        while t < recipe.targets.len()
            invariant
                t <= recipe.targets@.len(),
                stages@ == stages_of(recipe),
                root == paths.build_root@,
                targets@.len() == t,
                forall|i: int|
                    0 <= i < t ==> {
                        let target = #[trigger] targets@[i];
                        let spec = recipe.targets@[i];
                        &&& target.build_target == spec.build_target
                        &&& target.jobs@.len() == stages@.len()
                        &&& forall|j: int|
                            0 <= j < stages@.len() ==> (#[trigger] target.jobs@[j]).planned(
                                root,
                                spec.build_target,
                                stages@[j],
                                spec.steps@,
                            )
                    },
            decreases recipe.targets@.len() - t,
        {
            let spec = &recipe.targets[t];
            let mut jobs: Vec<Job> = Vec::new();
            let mut j: usize = 0;
            while j < stages.len()
                invariant
                    j <= stages@.len(),
                    jobs@.len() == j,
                    root == paths.build_root@,
                    forall|k: int|
                        0 <= k < j ==> (#[trigger] jobs@[k]).planned(
                            root,
                            spec.build_target,
                            stages@[k],
                            spec.steps@,
                        ),
                decreases stages@.len() - j,
            {
                let job = Job::new(spec.build_target, stages[j], &spec.steps, &paths);
                jobs.push(job);
                j = j + 1;
            }
            targets.push(Target { build_target: spec.build_target, jobs });
            t = t + 1;
        }
        Ok(Builder { targets, recipe, paths, ccache })
    }
}

/// The dependencies of step scripts, in order
pub open spec fn deps_of_steps(steps: Seq<(Step, Script)>) -> Seq<Seq<char>>
    decreases steps.len(),
{
    if steps.len() == 0 {
        Seq::empty()
    } else {
        deps_of_steps(steps.drop_last()) + string_views(steps.last().1.dependencies@)
    }
}

/// The dependencies of the steps of jobs, in order
pub open spec fn deps_of_jobs(jobs: Seq<Job>) -> Seq<Seq<char>>
    decreases jobs.len(),
{
    if jobs.len() == 0 {
        Seq::empty()
    } else {
        deps_of_jobs(jobs.drop_last()) + deps_of_steps(jobs.last().steps@)
    }
}

/// The dependencies of the jobs of targets, in order
pub open spec fn deps_of_targets(targets: Seq<Target>) -> Seq<Seq<char>>
    decreases targets.len(),
{
    if targets.len() == 0 {
        Seq::empty()
    } else {
        deps_of_targets(targets.drop_last()) + deps_of_jobs(targets.last().jobs@)
    }
}

fn push_strings(out: &mut Vec<String>, v: &Vec<String>)
    ensures
        string_views(final(out)@) == string_views(old(out)@) + string_views(v@),
{
    let ghost start = string_views(out@);
    let mut i: usize = 0;
    while i < v.len()
        invariant
            i <= v@.len(),
            string_views(out@) == start + string_views(v@).subrange(0, i as int),
        decreases v@.len() - i,
    {
        let item = v[i].clone();
        let ghost prev = string_views(out@);
        out.push(item);
        assert(string_views(out@) =~= prev.push(item@));
        assert(string_views(v@).subrange(0, i + 1) =~= string_views(v@).subrange(0, i as int).push(
            item@,
        ));
        i = i + 1;
    }
    assert(string_views(v@).subrange(0, v@.len() as int) =~= string_views(v@));
}

fn push_step_deps(out: &mut Vec<String>, steps: &Vec<(Step, Script)>)
    ensures
        string_views(final(out)@) == string_views(old(out)@) + deps_of_steps(steps@),
{
    let ghost start = string_views(out@);
    let mut i: usize = 0;
    assert(start + deps_of_steps(steps@.subrange(0, 0)) =~= start);
    while i < steps.len()
        invariant
            i <= steps@.len(),
            string_views(out@) == start + deps_of_steps(steps@.subrange(0, i as int)),
        decreases steps@.len() - i,
    {
        assert(steps@.subrange(0, i + 1).drop_last() =~= steps@.subrange(0, i as int));
        push_strings(out, &steps[i].1.dependencies);
        i = i + 1;
        assert(string_views(out@) =~= start + deps_of_steps(steps@.subrange(0, i as int)));
    }
    assert(steps@.subrange(0, steps@.len() as int) =~= steps@);
}

fn push_job_deps(out: &mut Vec<String>, jobs: &Vec<Job>)
    ensures
        string_views(final(out)@) == string_views(old(out)@) + deps_of_jobs(jobs@),
{
    let ghost start = string_views(out@);
    let mut i: usize = 0;
    assert(start + deps_of_jobs(jobs@.subrange(0, 0)) =~= start);
    while i < jobs.len()
        invariant
            i <= jobs@.len(),
            string_views(out@) == start + deps_of_jobs(jobs@.subrange(0, i as int)),
        decreases jobs@.len() - i,
    {
        assert(jobs@.subrange(0, i + 1).drop_last() =~= jobs@.subrange(0, i as int));
        push_step_deps(out, &jobs[i].steps);
        i = i + 1;
        assert(string_views(out@) =~= start + deps_of_jobs(jobs@.subrange(0, i as int)));
    }
    assert(jobs@.subrange(0, jobs@.len() as int) =~= jobs@);
}

impl Builder {
    /// The packages that the scripts of the whole plan need, target by
    /// target, job by job, step by step
    pub fn extra_deps(&self) -> (r: Vec<String>)
        ensures
            string_views(r@) == deps_of_targets(self.targets@),
    {
        let mut out: Vec<String> = Vec::new();
        let mut i: usize = 0;
        assert(string_views(out@) =~= deps_of_targets(self.targets@.subrange(0, 0)));
        while i < self.targets.len()
            invariant
                i <= self.targets@.len(),
                string_views(out@) == deps_of_targets(self.targets@.subrange(0, i as int)),
            decreases self.targets@.len() - i,
        {
            assert(self.targets@.subrange(0, i + 1).drop_last() =~= self.targets@.subrange(
                0,
                i as int,
            ));
            push_job_deps(&mut out, &self.targets[i].jobs);
            i = i + 1;
        }
        assert(self.targets@.subrange(0, self.targets@.len() as int) =~= self.targets@);
        out
    }
}

/// One unit of work of a build, naming its place in the plan
#[derive(Debug, Clone, Copy, PartialEq, Eq, Structural)]
pub enum Action {
    /// Recreate the job's work directory, and its PGO directory for a stage
    StartJob { target: usize, job: usize },
    /// Run a command of a step's script
    Run { target: usize, job: usize, step: usize, command: usize },
}

/// The commands of a step, in order
pub open spec fn runs_of(t: int, j: int, s: int, n: int) -> Seq<Action> {
    Seq::new(
        n as nat,
        |c: int| Action::Run { target: t as usize, job: j as usize, step: s as usize, command: c as usize },
    )
}

/// The actions of the steps of a job, step by step
pub open spec fn schedule_steps(t: int, j: int, steps: Seq<(Step, Script)>) -> Seq<Action>
    decreases steps.len(),
{
    if steps.len() == 0 {
        Seq::empty()
    } else {
        schedule_steps(t, j, steps.drop_last()) + runs_of(
            t,
            j,
            steps.len() - 1,
            steps.last().1.commands@.len() as int,
        )
    }
}

/// The actions of the jobs of a target: each job's start, then its steps
pub open spec fn schedule_jobs(t: int, jobs: Seq<Job>) -> Seq<Action>
    decreases jobs.len(),
{
    if jobs.len() == 0 {
        Seq::empty()
    } else {
        schedule_jobs(t, jobs.drop_last()) + seq![
            Action::StartJob { target: t as usize, job: (jobs.len() - 1) as usize },
        ] + schedule_steps(t, jobs.len() - 1, jobs.last().steps@)
    }
}

/// The actions of a whole plan, target by target
pub open spec fn schedule_targets(targets: Seq<Target>) -> Seq<Action>
    decreases targets.len(),
{
    if targets.len() == 0 {
        Seq::empty()
    } else {
        schedule_targets(targets.drop_last()) + schedule_jobs(
            targets.len() - 1,
            targets.last().jobs@,
        )
    }
}

fn push_runs(out: &mut Vec<Action>, t: usize, j: usize, s: usize, n: usize)
    ensures
        final(out)@ == old(out)@ + runs_of(t as int, j as int, s as int, n as int),
{
    let ghost start = out@;
    let mut c: usize = 0;
    while c < n
        invariant
            c <= n,
            out@ == start + runs_of(t as int, j as int, s as int, c as int),
        decreases n - c,
    {
        out.push(Action::Run { target: t, job: j, step: s, command: c });
        c = c + 1;
        assert(out@ =~= start + runs_of(t as int, j as int, s as int, c as int));
    }
}

fn push_step_actions(out: &mut Vec<Action>, t: usize, j: usize, steps: &Vec<(Step, Script)>)
    ensures
        final(out)@ == old(out)@ + schedule_steps(t as int, j as int, steps@),
{
    let ghost start = out@;
    let mut i: usize = 0;
    assert(start + schedule_steps(t as int, j as int, steps@.subrange(0, 0)) =~= start);
    while i < steps.len()
        invariant
            i <= steps@.len(),
            out@ == start + schedule_steps(t as int, j as int, steps@.subrange(0, i as int)),
        decreases steps@.len() - i,
    {
        assert(steps@.subrange(0, i + 1).drop_last() =~= steps@.subrange(0, i as int));
        push_runs(out, t, j, i, steps[i].1.commands.len());
        i = i + 1;
        assert(out@ =~= start + schedule_steps(t as int, j as int, steps@.subrange(0, i as int)));
    }
    assert(steps@.subrange(0, steps@.len() as int) =~= steps@);
}

fn push_job_actions(out: &mut Vec<Action>, t: usize, jobs: &Vec<Job>)
    ensures
        final(out)@ == old(out)@ + schedule_jobs(t as int, jobs@),
{
    let ghost start = out@;
    let mut i: usize = 0;
    assert(start + schedule_jobs(t as int, jobs@.subrange(0, 0)) =~= start);
    while i < jobs.len()
        invariant
            i <= jobs@.len(),
            out@ == start + schedule_jobs(t as int, jobs@.subrange(0, i as int)),
        decreases jobs@.len() - i,
    {
        assert(jobs@.subrange(0, i + 1).drop_last() =~= jobs@.subrange(0, i as int));
        out.push(Action::StartJob { target: t, job: i });
        push_step_actions(out, t, i, &jobs[i].steps);
        i = i + 1;
        assert(out@ =~= start + schedule_jobs(t as int, jobs@.subrange(0, i as int)));
    }
    assert(jobs@.subrange(0, jobs@.len() as int) =~= jobs@);
}

impl Builder {
    /// The work of the whole build in the order it is done: targets in plan
    /// order, within a target its jobs (PGO stages) in order, each job's
    /// start followed by its steps in order and each step's commands in
    /// order
    pub fn schedule(&self) -> (r: Vec<Action>)
        ensures
            r@ == schedule_targets(self.targets@),
    {
        let mut out: Vec<Action> = Vec::new();
        let mut i: usize = 0;
        assert(out@ =~= schedule_targets(self.targets@.subrange(0, 0)));
        while i < self.targets.len()
            invariant
                i <= self.targets@.len(),
                out@ == schedule_targets(self.targets@.subrange(0, i as int)),
            decreases self.targets@.len() - i,
        {
            assert(self.targets@.subrange(0, i + 1).drop_last() =~= self.targets@.subrange(
                0,
                i as int,
            ));
            push_job_actions(&mut out, i, &self.targets[i].jobs);
            i = i + 1;
        }
        assert(self.targets@.subrange(0, self.targets@.len() as int) =~= self.targets@);
        out
    }
}

/// The line shown when a breakpoint is reached: where it is in the recipe,
/// when known, and whether the build ends after the shell
pub open spec fn banner_spec(line: Option<usize>, exit: bool) -> Seq<char> {
    "Breakpoint"@ + match line {
        Some(n) => " at line "@ + decimal_digits(n as nat),
        None => Seq::empty(),
    } + if exit {
        " (exit)"@
    } else {
        " (continue)"@
    }
}

pub fn breakpoint_banner(line: Option<usize>, exit: bool) -> (r: String)
    ensures
        r@ == banner_spec(line, exit),
{
    let mut r = "Breakpoint".to_owned();
    if let Some(n) = line {
        r.append(" at line ");
        let mut digits: Vec<char> = Vec::new();
        push_decimal(&mut digits, n);
        assert(digits@ =~= decimal_digits(n as nat));
        let d = string_of(&digits);
        r.append(d.as_str());
    }
    if exit {
        r.append(" (exit)");
    } else {
        r.append(" (continue)");
    }
    assert(r@ =~= banner_spec(line, exit));
    r
}

/// The whole environment of a spawned shell: `HOME` is the build directory,
/// `PATH` the system binaries, and interactive shells also get `TERM`.
pub open spec fn shell_env_spec(home: Seq<char>, interactive: bool) -> Seq<(Seq<char>, Seq<char>)> {
    let base = seq![("HOME"@, home), ("PATH"@, "/usr/bin:/usr/sbin"@)];
    if interactive {
        base.push(("TERM"@, "xterm-256color"@))
    } else {
        base
    }
}

pub fn shell_env(home: &str, interactive: bool) -> (r: Vec<(String, String)>)
    ensures
        r@.map_values(|p: (String, String)| (p.0@, p.1@)) == shell_env_spec(home@, interactive),
{
    let mut r: Vec<(String, String)> = Vec::new();
    r.push(("HOME".to_owned(), home.to_owned()));
    r.push(("PATH".to_owned(), "/usr/bin:/usr/sbin".to_owned()));
    if interactive {
        r.push(("TERM".to_owned(), "xterm-256color".to_owned()));
    }
    assert(r@.map_values(|p: (String, String)| (p.0@, p.1@)) =~= shell_env_spec(home@, interactive));
    r
}

/// How a finished child process ended, as the operating system reports it
#[derive(Debug, Clone, Copy, PartialEq, Eq, Structural)]
pub struct ExitStatus {
    pub success: bool,
    pub code: Option<i32>,
    pub signal: Option<i32>,
    pub stopped_signal: Option<i32>,
}

/// Why a step's command failed
#[derive(Debug, Clone, Copy, PartialEq, Eq, Structural)]
pub enum ExecError {
    /// Non-zero exit code
    Code(i32),
    /// Terminated by this signal
    Signal(i32),
    /// Ended neither by an exit code nor by a known signal
    UnknownSignal,
}

/// Whether the operating system names the signal number.
pub uninterp spec fn is_signal(n: i32) -> bool;

/// Relies on `nix::sys::signal::Signal::try_from`, which accepts exactly the
/// numbers of the platform's signals.
#[verifier::external_body]
fn known_signal(n: i32) -> (r: bool)
    ensures
        r == is_signal(n),
{
    nix::sys::signal::Signal::try_from(n).is_ok()
}

/// The outcome of a step command: success, its exit code, the signal that
/// ended or stopped it, or an unknown signal.
pub open spec fn exit_result_spec(s: ExitStatus) -> Result<(), ExecError> {
    if s.success {
        Ok(())
    } else if s.code is Some {
        Err(ExecError::Code(s.code->0))
    } else {
        let sig = if s.signal is Some {
            s.signal
        } else {
            s.stopped_signal
        };
        if sig is Some && is_signal(sig->0) {
            Err(ExecError::Signal(sig->0))
        } else {
            Err(ExecError::UnknownSignal)
        }
    }
}

pub fn exit_result(status: &ExitStatus) -> (r: Result<(), ExecError>)
    ensures
        r == exit_result_spec(*status),
{
    if status.success {
        return Ok(());
    }
    match status.code {
        Some(code) => Err(ExecError::Code(code)),
        None => {
            let sig = match status.signal {
                Some(s) => Some(s),
                None => status.stopped_signal,
            };
            match sig {
                Some(n) => if known_signal(n) {
                    Err(ExecError::Signal(n))
                } else {
                    Err(ExecError::UnknownSignal)
                },
                None => Err(ExecError::UnknownSignal),
            }
        },
    }
}

/// What the runner does after a command
#[derive(Debug, Clone, Copy, PartialEq, Eq)]
pub enum Flow {
    /// Go on with the next command
    Continue,
    /// Stop the whole build with this result
    Finish(Result<(), ExecError>),
}

/// After a shell command ended: go on if it succeeded, else end the build
/// with its error.
pub fn after_command(status: &ExitStatus) -> (r: Flow)
    ensures
        r == match exit_result_spec(*status) {
            Ok(()) => Flow::Continue,
            Err(e) => Flow::Finish(Err(e)),
        },
{
    match exit_result(status) {
        Ok(()) => Flow::Continue,
        Err(e) => Flow::Finish(Err(e)),
    }
}

/// After the operator left a breakpoint's shell: an exit breakpoint ends the
/// whole build with success, whatever is left; another resumes.
pub fn after_breakpoint(breakpoint: &Breakpoint) -> (r: Flow)
    ensures
        breakpoint.exit ==> r == Flow::Finish(Ok(())),
        !breakpoint.exit ==> r == Flow::Continue,
{
    if breakpoint.exit {
        Flow::Finish(Ok(()))
    } else {
        Flow::Continue
    }
}

} // verus!
