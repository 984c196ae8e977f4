use crate::text::{
    chars_of, ends_with, find_char, first_index, is_whitespace, is_ws, lines_of, range_ends_with,
    split_lines, string_views, trim, trim_bounds, trim_start,
};
use crate::profile::pair_views;
use vstd::prelude::*;

verus! {

/// A CPU architecture a recipe can be built for
#[derive(Debug, Clone, Copy, PartialEq, Eq, Structural)]
pub enum Architecture {
    X86_64,
    X86,
    Aarch64,
}

impl Architecture {
    pub open spec fn spec_name(self) -> Seq<char> {
        match self {
            Architecture::X86_64 => "x86_64"@,
            Architecture::X86 => "x86"@,
            Architecture::Aarch64 => "aarch64"@,
        }
    }

    pub fn name(self) -> (r: &'static str)
        ensures
            r@ == self.spec_name(),
    {
        match self {
            Architecture::X86_64 => "x86_64",
            Architecture::X86 => "x86",
            Architecture::Aarch64 => "aarch64",
        }
    }
}

/// What a job builds for: the host itself, or another architecture from it
#[derive(Debug, Clone, Copy, PartialEq, Eq, Structural)]
pub enum BuildTarget {
    Native(Architecture),
    Cross(Architecture, Architecture),
}

impl BuildTarget {
    /// The name of the target, which also names its build directory
    pub open spec fn spec_name(self) -> Seq<char> {
        match self {
            BuildTarget::Native(a) => a.spec_name(),
            BuildTarget::Cross(a, b) => a.spec_name() + "-to-"@ + b.spec_name(),
        }
    }

    pub fn name(self) -> (r: String)
        ensures
            r@ == self.spec_name(),
    {
        match self {
            BuildTarget::Native(a) => a.name().to_owned(),
            BuildTarget::Cross(a, b) => {
                let mut r = a.name().to_owned();
                r.append("-to-");
                r.append(b.name());
                r
            },
        }
    }
}

/// A canonical build phase
#[derive(Debug, Clone, Copy, PartialEq, Eq, Structural)]
pub enum Step {
    Prepare,
    Setup,
    Build,
    Install,
    Check,
    Workload,
}

/// The canonical order of the steps of a job
pub open spec fn canonical_steps() -> Seq<Step> {
    seq![Step::Prepare, Step::Setup, Step::Build, Step::Install, Step::Check, Step::Workload]
}

impl Step {
    /// The recipe key of the step; the internal prepare step has none
    pub open spec fn spec_key(self) -> Option<Seq<char>> {
        match self {
            Step::Prepare => None,
            Step::Setup => Some(seq!['s', 'e', 't', 'u', 'p']),
            Step::Build => Some(seq!['b', 'u', 'i', 'l', 'd']),
            Step::Install => Some(seq!['i', 'n', 's', 't', 'a', 'l', 'l']),
            Step::Check => Some(seq!['c', 'h', 'e', 'c', 'k']),
            Step::Workload => Some(seq!['w', 'o', 'r', 'k', 'l', 'o', 'a', 'd']),
        }
    }

    pub fn key(self) -> (r: Option<Vec<char>>)
        ensures
            r matches Some(k) ==> self.spec_key() == Some(k@),
            r is None ==> self.spec_key() is None,
    {
        match self {
            Step::Prepare => None,
            Step::Setup => {
                let k = vec!['s', 'e', 't', 'u', 'p'];
                assert(k@ =~= seq!['s', 'e', 't', 'u', 'p']);
                Some(k)
            },
            Step::Build => {
                let k = vec!['b', 'u', 'i', 'l', 'd'];
                assert(k@ =~= seq!['b', 'u', 'i', 'l', 'd']);
                Some(k)
            },
            Step::Install => {
                let k = vec!['i', 'n', 's', 't', 'a', 'l', 'l'];
                assert(k@ =~= seq!['i', 'n', 's', 't', 'a', 'l', 'l']);
                Some(k)
            },
            Step::Check => {
                let k = vec!['c', 'h', 'e', 'c', 'k'];
                assert(k@ =~= seq!['c', 'h', 'e', 'c', 'k']);
                Some(k)
            },
            Step::Workload => {
                let k = vec!['w', 'o', 'r', 'k', 'l', 'o', 'a', 'd'];
                assert(k@ =~= seq!['w', 'o', 'r', 'k', 'l', 'o', 'a', 'd']);
                Some(k)
            },
        }
    }

    /// The name of the step as shown to the user
    pub open spec fn spec_name(self) -> Seq<char> {
        match self {
            Step::Prepare => "prepare"@,
            Step::Setup => "setup"@,
            Step::Build => "build"@,
            Step::Install => "install"@,
            Step::Check => "check"@,
            Step::Workload => "workload"@,
        }
    }

    pub fn name(self) -> (r: &'static str)
        ensures
            r@ == self.spec_name(),
    {
        match self {
            Step::Prepare => "prepare",
            Step::Setup => "setup",
            Step::Build => "build",
            Step::Install => "install",
            Step::Check => "check",
            Step::Workload => "workload",
        }
    }

    /// The two character tag of the step in annotated log lines
    pub open spec fn spec_abbrev(self) -> Seq<char> {
        match self {
            Step::Prepare => "pr"@,
            Step::Setup => "su"@,
            Step::Build => "bu"@,
            Step::Install => "in"@,
            Step::Check => "ch"@,
            Step::Workload => "wl"@,
        }
    }

    pub fn abbrev(self) -> (r: &'static str)
        ensures
            r@ == self.spec_abbrev(),
            r@.len() == 2,
    {
        let r = match self {
            Step::Prepare => "pr",
            Step::Setup => "su",
            Step::Build => "bu",
            Step::Install => "in",
            Step::Check => "ch",
            Step::Workload => "wl",
        };
        proof {
            reveal_strlit("pr");
            reveal_strlit("su");
            reveal_strlit("bu");
            reveal_strlit("in");
            reveal_strlit("ch");
            reveal_strlit("wl");
        }
        r
    }
}

/// A profile-guided optimisation pass
#[derive(Debug, Clone, Copy, PartialEq, Eq, Structural)]
pub enum PgoStage {
    One,
    Two,
    Use,
}

impl PgoStage {
    pub open spec fn spec_name(self) -> Seq<char> {
        match self {
            PgoStage::One => "stage1"@,
            PgoStage::Two => "stage2"@,
            PgoStage::Use => "use"@,
        }
    }

    pub fn name(self) -> (r: &'static str)
        ensures
            r@ == self.spec_name(),
    {
        match self {
            PgoStage::One => "stage1",
            PgoStage::Two => "stage2",
            PgoStage::Use => "use",
        }
    }
}

/// An interactive suspension point inside a script
#[derive(Debug, Clone, Copy, PartialEq, Eq, Structural)]
pub struct Breakpoint {
    /// Line of the breakpoint, relative to the start of the step's script
    pub line_num: usize,
    /// Whether the whole build ends once the operator leaves the shell
    pub exit: bool,
}

/// One unit of a script
#[derive(Debug, Clone, PartialEq, Eq)]
pub enum Command {
    /// A shell fragment to execute
    Content(String),
    /// An interactive breakpoint
    Break(Breakpoint),
}

/// The mathematical value of a command
pub enum CommandView {
    Content(Seq<char>),
    Break(Breakpoint),
}

impl Command {
    pub open spec fn view(&self) -> CommandView {
        match self {
            Command::Content(c) => CommandView::Content(c@),
            Command::Break(b) => CommandView::Break(*b),
        }
    }

    /// A copy of the command
    pub fn duplicate(&self) -> (r: Command)
        ensures
            r.view() == self.view(),
    {
        match self {
            Command::Content(c) => Command::Content(c.clone()),
            Command::Break(b) => Command::Break(*b),
        }
    }
}

/// The mathematical value of a script
pub struct ScriptView {
    pub env: Option<Seq<char>>,
    pub commands: Seq<CommandView>,
    pub resolved_actions: Seq<(Seq<char>, Seq<char>)>,
    pub resolved_definitions: Seq<(Seq<char>, Seq<char>)>,
    pub dependencies: Seq<Seq<char>>,
}

fn duplicate_strings(v: &Vec<String>) -> (r: Vec<String>)
    ensures
        string_views(r@) == string_views(v@),
{
    let mut r: Vec<String> = Vec::new();
    let mut i: usize = 0;
    while i < v.len()
        invariant
            i <= v@.len(),
            string_views(r@) == string_views(v@).subrange(0, i as int),
        decreases v@.len() - i,
    {
        let item = v[i].clone();
        let ghost prev = string_views(r@);
        r.push(item);
        assert(string_views(r@) =~= prev.push(item@));
        assert(string_views(v@).subrange(0, i + 1) =~= string_views(v@).subrange(0, i as int).push(
            item@,
        ));
        i = i + 1;
    }
    assert(string_views(v@).subrange(0, v@.len() as int) =~= string_views(v@));
    r
}

fn duplicate_pairs(v: &Vec<(String, String)>) -> (r: Vec<(String, String)>)
    ensures
        pair_views(r@) == pair_views(v@),
{
    let mut r: Vec<(String, String)> = Vec::new();
    let mut i: usize = 0;
    while i < v.len()
        invariant
            i <= v@.len(),
            pair_views(r@) == pair_views(v@).subrange(0, i as int),
        decreases v@.len() - i,
    {
        let item = (v[i].0.clone(), v[i].1.clone());
        let ghost prev = pair_views(r@);
        r.push(item);
        assert(pair_views(r@) =~= prev.push((item.0@, item.1@)));
        assert(pair_views(v@).subrange(0, i + 1) =~= pair_views(v@).subrange(0, i as int).push(
            (item.0@, item.1@),
        ));
        i = i + 1;
    }
    assert(pair_views(v@).subrange(0, v@.len() as int) =~= pair_views(v@));
    r
}

/// The values of a list of commands
pub open spec fn command_views(v: Seq<Command>) -> Seq<CommandView> {
    v.map_values(|c: Command| c.view())
}

/// A resolved step script
#[derive(Debug)]
pub struct Script {
    /// Environment prelude of the script
    pub env: Option<String>,
    pub commands: Vec<Command>,
    /// Action identifier and its shell body, in declaration order
    pub resolved_actions: Vec<(String, String)>,
    /// Definition identifier and its value, in declaration order
    pub resolved_definitions: Vec<(String, String)>,
    /// Packages the script needs in the build root
    pub dependencies: Vec<String>,
}

impl Script {
    pub open spec fn view(&self) -> ScriptView {
        ScriptView {
            env: match self.env {
                Some(e) => Some(e@),
                None => None,
            },
            commands: command_views(self.commands@),
            resolved_actions: pair_views(self.resolved_actions@),
            resolved_definitions: pair_views(self.resolved_definitions@),
            dependencies: string_views(self.dependencies@),
        }
    }

    /// A copy of the script
    pub fn duplicate(&self) -> (r: Script)
        ensures
            r.view() == self.view(),
    {
        let env = match &self.env {
            Some(e) => Some(e.clone()),
            None => None,
        };
        let mut commands: Vec<Command> = Vec::new();
        let mut i: usize = 0;
        while i < self.commands.len()
            invariant
                i <= self.commands@.len(),
                command_views(commands@) == command_views(self.commands@).subrange(0, i as int),
            decreases self.commands@.len() - i,
        {
            let c = self.commands[i].duplicate();
            let ghost prev = command_views(commands@);
            commands.push(c);
            assert(command_views(commands@) =~= prev.push(c.view()));
            assert(command_views(self.commands@).subrange(0, i + 1) =~= command_views(
                self.commands@,
            ).subrange(0, i as int).push(c.view()));
            i = i + 1;
        }
        assert(command_views(self.commands@).subrange(0, self.commands@.len() as int)
            =~= command_views(self.commands@));
        Script {
            env,
            commands,
            resolved_actions: duplicate_pairs(&self.resolved_actions),
            resolved_definitions: duplicate_pairs(&self.resolved_definitions),
            dependencies: duplicate_strings(&self.dependencies),
        }
    }
}

/// The recipe data of one build target
#[derive(Debug)]
pub struct TargetSpec {
    pub build_target: BuildTarget,
    /// Key of the indented profile block that holds the target's steps;
    /// `None` for the root profile
    pub profile_key: Option<String>,
    /// The declared steps with their scripts
    pub steps: Vec<(Step, Script)>,
}

/// A loaded recipe
#[derive(Debug)]
pub struct Recipe {
    /// Source text of the recipe
    pub source: String,
    /// Whether builds may use the network
    pub networking: bool,
    /// The targets this host can build the recipe for
    pub targets: Vec<TargetSpec>,
    /// The PGO stages, in order, when PGO is enabled
    pub pgo_stages: Option<Vec<PgoStage>>,
}

/// The text of an optional string
pub open spec fn opt_view(s: Option<&str>) -> Option<Seq<char>> {
    match s {
        Some(p) => Some(p@),
        None => None,
    }
}

/// The profile key of the first declaration of `target` from index `i` on
pub open spec fn profile_from(targets: Seq<TargetSpec>, target: BuildTarget, i: int) -> Option<
    Seq<char>,
>
    decreases targets.len() - i,
{
    if i < 0 || i >= targets.len() {
        None
    } else if targets[i].build_target == target {
        match targets[i].profile_key {
            Some(k) => Some(k@),
            None => None,
        }
    } else {
        profile_from(targets, target, i + 1)
    }
}

/// A line is indented when it starts with whitespace.
pub open spec fn indented(line: Seq<char>) -> bool {
    line.len() > 0 && is_ws(line[0])
}

/// The part of a line before its first `:`, trimmed, ends with `key`.
pub open spec fn has_key(line: Seq<char>, key: Seq<char>) -> bool {
    exists|i: int|
        first_index(line, ':', i) && #[trigger] ends_with(trim(line.subrange(0, i)), key)
}

/// The value after the first `:` opens a block scalar (`|` or `>`).
pub open spec fn opens_block(line: Seq<char>) -> bool {
    exists|i: int|
        first_index(line, ':', i) && {
            let rest = #[trigger] trim_start(line.subrange(i + 1, line.len() as int));
            rest.len() > 0 && (rest[0] == '|' || rest[0] == '>')
        }
}

/// Scans lines from `i`: lines of the wrong indentation for the profile are
/// ignored, lines before the profile key are skipped while `skipping`, and the
/// first remaining line with the step's key gives the breakpoint's line.
pub open spec fn bp_scan(
    lines: Seq<Seq<char>>,
    i: int,
    profile: Option<Seq<char>>,
    skipping: bool,
    key: Seq<char>,
    offset: int,
) -> Option<int>
    decreases lines.len() - i,
{
    if i < 0 || i >= lines.len() {
        None
    } else if indented(lines[i]) != (profile is Some) {
        bp_scan(lines, i + 1, profile, skipping, key, offset)
    } else if skipping && profile is Some && !has_key(lines[i], profile->0) {
        bp_scan(lines, i + 1, profile, true, key, offset)
    } else if has_key(lines[i], key) {
        Some(i + 1 + (if opens_block(lines[i]) {
            1int
        } else {
            0int
        }) + offset)
    } else {
        bp_scan(lines, i + 1, profile, false, key, offset)
    }
}

/// The 1-based recipe line of a breakpoint; `None` where it cannot be placed
/// or does not fit in `usize`.
pub open spec fn breakpoint_line_spec(
    lines: Seq<Seq<char>>,
    profile: Option<Seq<char>>,
    step: Step,
    bp: Breakpoint,
) -> Option<usize> {
    match step.spec_key() {
        None => None,
        Some(key) => match bp_scan(lines, 0, profile, true, key, bp.line_num as int) {
            Some(n) => if n <= usize::MAX {
                Some(n as usize)
            } else {
                None
            },
            None => None,
        },
    }
}

fn line_has_key(line: &[char], key: &[char]) -> (r: bool)
    ensures
        r == has_key(line@, key@),
{
    match find_char(line, ':') {
        None => {
            assert forall|i: int| !first_index(line@, ':', i) by {}
            false
        },
        Some(c) => {
            let lead = slice_prefix(line, c);
            let (a, b) = trim_bounds(lead.as_slice());
            let r = range_ends_with(lead.as_slice(), a, b, key);
            assert(forall|i: int| first_index(line@, ':', i) ==> i == c);
            assert(lead@ =~= line@.subrange(0, c as int));
            r
        },
    }
}

fn line_opens_block(line: &[char]) -> (r: bool)
    ensures
        r == opens_block(line@),
{
    match find_char(line, ':') {
        None => {
            assert forall|i: int| !first_index(line@, ':', i) by {}
            false
        },
        Some(c) => {
            assert(forall|i: int| first_index(line@, ':', i) ==> i == c);
            let len = line.len();
            assert(c < len);
            let mut j: usize = c + 1;
            assert(line@.subrange(j as int, line@.len() as int) =~= line@.subrange(
                c + 1,
                line@.len() as int,
            ));
            while j < line.len() && is_whitespace(line[j])
                invariant
                    c + 1 <= j <= line@.len(),
                    trim_start(line@.subrange(c + 1, line@.len() as int)) == trim_start(
                        line@.subrange(j as int, line@.len() as int),
                    ),
                decreases line@.len() - j,
            {
                assert(line@.subrange(j as int, line@.len() as int).drop_first()
                    =~= line@.subrange(j + 1, line@.len() as int));
                j = j + 1;
            }
            let ghost rest = line@.subrange(j as int, line@.len() as int);
            assert(trim_start(rest) == rest);
            j < line.len() && (line[j] == '|' || line[j] == '>')
        },
    }
}

fn slice_prefix(s: &[char], n: usize) -> (r: Vec<char>)
    requires
        n <= s@.len(),
    ensures
        r@ == s@.subrange(0, n as int),
{
    let mut r: Vec<char> = Vec::new();
    let mut i: usize = 0;
    while i < n
        invariant
            i <= n <= s@.len(),
            r@ == s@.subrange(0, i as int),
        decreases n - i,
    {
        r.push(s[i]);
        i = i + 1;
        assert(r@ =~= s@.subrange(0, i as int));
    }
    r
}

/// Places a breakpoint in the recipe source, given the source's lines: the
/// line of the step's key within the target's profile, one more when the
/// script is a block scalar, plus the breakpoint's own offset. 1-based.
pub fn breakpoint_line_in(
    lines: &Vec<String>,
    profile: Option<&str>,
    step: Step,
    breakpoint: &Breakpoint,
) -> (r: Option<usize>)
    ensures
        r == breakpoint_line_spec(
            string_views(lines@),
            opt_view(profile),
            step,
            *breakpoint,
        ),
{
    let ghost ls = string_views(lines@);
    let ghost prof = opt_view(profile);
    let key = match step.key() {
        None => return None,
        Some(k) => k,
    };
    let profile_chars: Option<Vec<char>> = match profile {
        Some(p) => Some(chars_of(p)),
        None => None,
    };
    let mut skipping = true;
    let mut i: usize = 0;
    while i < lines.len()
        invariant
            i <= lines@.len(),
            ls == string_views(lines@),
            prof == opt_view(profile),
            step.spec_key() == Some(key@),
            profile_chars is Some <==> prof is Some,
            profile_chars matches Some(pc) ==> prof == Some(pc@),
            bp_scan(ls, 0, prof, true, key@, breakpoint.line_num as int) == bp_scan(
                ls,
                i as int,
                prof,
                skipping,
                key@,
                breakpoint.line_num as int,
            ),
        decreases lines@.len() - i,
    {
        let line = chars_of(lines[i].as_str());
        assert(line@ == ls[i as int]);
        let is_indented = line.len() > 0 && is_whitespace(line[0]);
        if is_indented != profile_chars.is_some() {
            i = i + 1;
            continue ;
        }
        if skipping {
            if let Some(pc) = &profile_chars {
                if !line_has_key(line.as_slice(), pc.as_slice()) {
                    i = i + 1;
                    continue ;
                }
            }
        }
        if line_has_key(line.as_slice(), key.as_slice()) {
            let opens = line_opens_block(line.as_slice());
            let block: usize = if opens {
                1
            } else {
                0
            };
            assert(!(skipping && prof is Some && !has_key(ls[i as int], prof->0)));
            assert(bp_scan(ls, i as int, prof, skipping, key@, breakpoint.line_num as int) == Some(
                i + 1 + block + breakpoint.line_num,
            ));
            assert(bp_scan(ls, 0, prof, true, key@, breakpoint.line_num as int) == Some(
                i + 1 + block + breakpoint.line_num,
            ));
            assert(breakpoint_line_spec(ls, prof, step, *breakpoint) == if i + 1 + block
                + breakpoint.line_num <= usize::MAX {
                Some((i + 1 + block + breakpoint.line_num) as usize)
            } else {
                None
            });
            let base = i + 1;
            if block > usize::MAX - base {
                assert(i + 1 + block + breakpoint.line_num > usize::MAX);
                return None;
            }
            let n = base + block;
            if n > usize::MAX - breakpoint.line_num {
                assert(i + 1 + block + breakpoint.line_num > usize::MAX);
                return None;
            }
            return Some(n + breakpoint.line_num);
        }
        skipping = false;
        i = i + 1;
    }
    None
}

impl Recipe {
    /// The build targets of the recipe, in declaration order
    pub fn build_targets(&self) -> (r: Vec<BuildTarget>)
        ensures
            r@.len() == self.targets@.len(),
            forall|i: int| 0 <= i < r@.len() ==> r@[i] == self.targets@[i].build_target,
    {
        let mut r: Vec<BuildTarget> = Vec::new();
        let mut i: usize = 0;
        while i < self.targets.len()
            invariant
                i <= self.targets@.len(),
                r@.len() == i,
                forall|j: int| 0 <= j < i ==> r@[j] == self.targets@[j].build_target,
            decreases self.targets@.len() - i,
        {
            r.push(self.targets[i].build_target);
            i = i + 1;
        }
        r
    }

    /// The key of the profile that holds a target's steps: that of the first
    /// declaration of the target; `None` for the root profile or a target the
    /// recipe does not declare
    pub open spec fn spec_profile_key(&self, target: BuildTarget) -> Option<Seq<char>> {
        profile_from(self.targets@, target, 0)
    }

    pub fn build_target_profile_key(&self, target: BuildTarget) -> (r: Option<&str>)
        ensures
            opt_view(r) == self.spec_profile_key(target),
    {
        let mut i: usize = 0;
        while i < self.targets.len()
            invariant
                i <= self.targets@.len(),
                profile_from(self.targets@, target, 0) == profile_from(
                    self.targets@,
                    target,
                    i as int,
                ),
            decreases self.targets@.len() - i,
        {
            if self.targets[i].build_target == target {
                return match &self.targets[i].profile_key {
                    Some(k) => Some(k.as_str()),
                    None => None,
                };
            }
            i = i + 1;
        }
        None
    }

    /// Places a breakpoint of a target's step in the recipe source, 1-based;
    /// `None` for the internal prepare step or a step the source does not show.
    pub fn breakpoint_line(
        &self,
        breakpoint: &Breakpoint,
        build_target: BuildTarget,
        step: Step,
    ) -> (r: Option<usize>)
        ensures
            step == Step::Prepare ==> r is None,
            r == breakpoint_line_spec(
                lines_of(self.source@),
                self.spec_profile_key(build_target),
                step,
                *breakpoint,
            ),
    {
        let lines = split_lines(self.source.as_str());
        let profile = self.build_target_profile_key(build_target);
        breakpoint_line_in(&lines, profile, step, breakpoint)
    }
}

} // verus!
