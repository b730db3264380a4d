//! Hosting targets: recognising a repository URL, and the registry that owns
//! the targets and drives their lazy initialisation.
use vstd::prelude::*;
use vstd::string::*;

use crate::location::{string_option_view, strings_view, UrlView, WebUrl};
use crate::package::Package;

verus! {

/// How a target writes the identifier of a repository.
#[derive(Debug, Clone, Copy, PartialEq, Eq)]
pub enum IdentifierStyle {
    /// `owner/repo` as it stands.
    Path,
    /// `owner/repo` percent-encoded into one path segment (`owner%2Frepo`).
    Encoded,
}

/// A repository-hosting platform as the registry sees it: a unique name, the
/// domains it serves, and how it writes identifiers.
pub struct Target {
    pub name: String,
    pub domains: Vec<String>,
    pub style: IdentifierStyle,
}

/// Mathematical model of a [`Target`].
pub ghost struct TargetView {
    pub name: Seq<char>,
    pub domains: Seq<Seq<char>>,
    pub style: IdentifierStyle,
}

impl View for Target {
    type V = TargetView;

    open spec fn view(&self) -> TargetView {
        TargetView { name: self.name@, domains: strings_view(self.domains@), style: self.style }
    }
}

/// The suffix that a clone URL carries after the repository name.
pub open spec fn git_suffix() -> Seq<char> {
    seq!['.', 'g', 'i', 't']
}

/// `s` with trailing occurrences of a non-empty `suffix` removed, repeatedly.
pub open spec fn trim_suffixes(s: Seq<char>, suffix: Seq<char>) -> Seq<char>
    decreases s.len(),
{
    if suffix.len() > 0 && suffix.len() <= s.len() && s.subrange(
        s.len() - suffix.len(),
        s.len() as int,
    ) == suffix {
        trim_suffixes(s.subrange(0, s.len() - suffix.len()), suffix)
    } else {
        s
    }
}

/// What `urlencoding::encode` makes of a text.
pub uninterp spec fn url_encoded(s: Seq<char>) -> Seq<char>;

/// `owner/repo`, with any `.git` endings of the repository removed.
pub open spec fn repo_path(owner: Seq<char>, repo: Seq<char>) -> Seq<char> {
    owner + seq!['/'] + trim_suffixes(repo, git_suffix())
}

pub open spec fn styled(style: IdentifierStyle, path: Seq<char>) -> Seq<char> {
    match style {
        IdentifierStyle::Path => path,
        IdentifierStyle::Encoded => url_encoded(path),
    }
}

/// The identifier that target `t` extracts from URL `u`, if `t` recognises it:
/// the domain is one of the target's, and the first two path segments are
/// present and non-empty.
pub open spec fn handle(t: TargetView, u: UrlView) -> Option<Seq<char>> {
    match u.domain {
        Some(d) => match u.segments {
            Some(segs) => if t.domains.contains(d) && segs.len() >= 2 && segs[0].len() > 0
                && segs[1].len() > 0 {
                Some(styled(t.style, repo_path(segs[0], segs[1])))
            } else {
                None
            },
            None => None,
        },
        None => None,
    }
}

/// Relies on `str::trim_end_matches`: every trailing match of the pattern is
/// removed, repeatedly.
#[verifier::external_body]
fn trim_end_matches(s: &str, suffix: &str) -> (r: String)
    requires
        suffix@.len() > 0,
    ensures
        r@ == trim_suffixes(s@, suffix@),
{
    s.trim_end_matches(suffix).to_string()
}

/// Relies on `urlencoding::encode`: percent-encodes every byte but ASCII
/// alphanumerics and `-`, `_`, `.`, `~`.
#[verifier::external_body]
fn percent_encode(s: &str) -> (r: String)
    ensures
        r@ == url_encoded(s@),
{
    urlencoding::encode(s).into_owned()
}

impl Target {
    /// Whether this target serves `domain`.
    pub fn serves(&self, domain: &String) -> (r: bool)
        ensures
            r == self@.domains.contains(domain@),
    {
        let mut i: usize = 0;
        while i < self.domains.len()
            invariant
                i <= self.domains.len(),
                forall|k: int| 0 <= k < i ==> self@.domains[k] != domain@,
            decreases self.domains.len() - i,
        {
            if self.domains[i] == *domain {
                assert(self@.domains[i as int] == domain@);
                return true;
            }
            i += 1;
        }
        false
    }

    /// The identifier of the repository that `url` points to, if this target
    /// recognises it.
    pub fn try_handle(&self, url: &WebUrl) -> (r: Option<String>)
        ensures
            string_option_view(r) == handle(self@, url@),
    {
        let d = match &url.domain {
            Some(d) => d,
            None => return None,
        };
        let segs = match &url.segments {
            Some(s) => s,
            None => return None,
        };
        if !self.serves(d) || segs.len() < 2 {
            return None;
        }
        if segs[0].as_str().is_empty() || segs[1].as_str().is_empty() {
            return None;
        }
        proof {
            reveal_strlit("/");
            reveal_strlit(".git");
            assert("/"@ =~= seq!['/']);
            assert(".git"@ =~= git_suffix());
        }
        let mut path = segs[0].clone();
        path.append("/");
        let repo = trim_end_matches(segs[1].as_str(), ".git");
        path.append(repo.as_str());
        assert(path@ =~= repo_path(segs@[0]@, segs@[1]@));
        match self.style {
            IdentifierStyle::Path => Some(path),
            IdentifierStyle::Encoded => Some(percent_encode(path.as_str())),
        }
    }
}

/// The first target of `s`, in order, that recognises `u`: the identifier it
/// extracts, and its name.
pub open spec fn classify(s: Seq<EntryView>, u: UrlView) -> Option<(Seq<char>, Seq<char>)>
    decreases s.len(),
{
    if s.len() == 0 {
        None
    } else {
        match handle(s[0].0, u) {
            Some(id) => Some((id, s[0].0.name)),
            None => classify(s.drop_first(), u),
        }
    }
}

/// Lifecycle of a registered target. `Initialized` and `Failed` are final.
#[derive(Debug, Clone, Copy, PartialEq, Eq)]
pub enum TargetState {
    Uninitialized,
    Initialized,
    Failed,
}

/// What the caller of [`TargetRegistry::star`] has to do next for a package.
#[derive(Debug, Clone, Copy, PartialEq, Eq)]
pub enum StarStep {
    /// The package names a target that is not registered: report an error.
    NoSuchTarget,
    /// The target was never initialised: run its initialisation once and
    /// report the outcome with [`TargetRegistry::record_init`].
    Initialize,
    /// The target is ready: perform the star action.
    Star,
    /// The target failed to initialise: warn that the package is skipped.
    Skip,
}

pub type EntryView = (TargetView, TargetState);

/// Registry of targets, in registration order, each with its lifecycle state.
pub struct TargetRegistry {
    entries: Vec<(Target, TargetState)>,
}

impl View for TargetRegistry {
    type V = Seq<EntryView>;

    closed spec fn view(&self) -> Seq<EntryView> {
        entries_view(self.entries@)
    }
}

pub open spec fn entries_view(v: Seq<(Target, TargetState)>) -> Seq<EntryView> {
    v.map_values(|e: (Target, TargetState)| (e.0@, e.1))
}

/// No two entries share a name.
pub open spec fn names_distinct(s: Seq<EntryView>) -> bool {
    forall|i: int, j: int|
        0 <= i < s.len() && 0 <= j < s.len() && i != j ==> #[trigger] s[i].0.name
            != #[trigger] s[j].0.name
}

pub open spec fn has_target(s: Seq<EntryView>, name: Seq<char>) -> bool {
    exists|i: int| 0 <= i < s.len() && #[trigger] s[i].0.name == name
}

/// The state of the target called `name`, if one is registered.
pub open spec fn state_of(s: Seq<EntryView>, name: Seq<char>) -> Option<TargetState> {
    if has_target(s, name) {
        Some(s[choose|i: int| 0 <= i < s.len() && #[trigger] s[i].0.name == name].1)
    } else {
        None
    }
}

/// What starring a package of a target in a given state asks for.
pub open spec fn step_for(state: Option<TargetState>) -> StarStep {
    match state {
        None => StarStep::NoSuchTarget,
        Some(TargetState::Uninitialized) => StarStep::Initialize,
        Some(TargetState::Initialized) => StarStep::Star,
        Some(TargetState::Failed) => StarStep::Skip,
    }
}

/// The entries after the initialisation outcome `ready` of target `name` is
/// recorded: an uninitialised entry of that name moves to its final state,
/// every other entry stays as it is.
pub open spec fn init_recorded(s: Seq<EntryView>, name: Seq<char>, ready: bool) -> Seq<EntryView> {
    s.map_values(
        |e: EntryView|
            if e.0.name == name && e.1 == TargetState::Uninitialized {
                (e.0, if ready {
                    TargetState::Initialized
                } else {
                    TargetState::Failed
                })
            } else {
                e
            },
    )
}

impl TargetRegistry {
    /// Target names are unique.
    #[verifier::type_invariant]
    spec fn inv(&self) -> bool {
        names_distinct(self@)
    }

    /// An empty registry.
    pub fn new() -> (r: TargetRegistry)
        ensures
            r@ == Seq::<EntryView>::empty(),
    {
        let r = TargetRegistry { entries: Vec::new() };
        assert(r@ =~= Seq::<EntryView>::empty());
        r
    }

    /// Index of the entry called `name`, if any.
    fn position(&self, name: &String) -> (r: Option<usize>)
        requires
            names_distinct(self@),
        ensures
            match r {
                Some(i) => i < self@.len() && self@[i as int].0.name == name@ && state_of(
                    self@,
                    name@,
                ) == Some(self@[i as int].1),
                None => !has_target(self@, name@) && state_of(self@, name@) is None,
            },
    {
        let mut i: usize = 0;
        while i < self.entries.len()
            invariant
                names_distinct(self@),
                i <= self.entries.len(),
                forall|k: int| 0 <= k < i ==> #[trigger] self@[k].0.name != name@,
            decreases self.entries.len() - i,
        {
            if self.entries[i].0.name == *name {
                assert(self@[i as int].0.name == name@);
                assert(has_target(self@, name@));
                let ghost j = choose|j: int| 0 <= j < self@.len() && #[trigger] self@[j].0.name == name@;
                assert(j == i as int);
                return Some(i);
            }
            i += 1;
        }
        None
    }

    /// Whether a target called `name` is registered.
    pub fn contains(&self, name: &str) -> (r: bool)
        ensures
            r == has_target(self@, name@),
            names_distinct(self@),
    {
        proof {
            use_type_invariant(self);
        }
        let name = name.to_owned();
        self.position(&name).is_some()
    }

    /// Registers `target`, not yet initialised. Two targets with one name are a
    /// configuration defect: callers must not register a name twice.
    pub fn register(&mut self, target: Target)
        requires
            !has_target(old(self)@, target@.name),
        ensures
            final(self)@ == old(self)@.push((target@, TargetState::Uninitialized)),
            names_distinct(final(self)@),
    {
        proof {
            use_type_invariant(&*self);
        }
        let ghost t = target@;
        let mut entries: Vec<(Target, TargetState)> = Vec::new();
        std::mem::swap(&mut entries, &mut self.entries);
        let ghost before = entries_view(entries@);
        assert(before == old(self)@);
        entries.push((target, TargetState::Uninitialized));
        let ghost after = entries_view(entries@);
        assert(after =~= before.push((t, TargetState::Uninitialized)));
        assert forall|i: int, j: int|
            0 <= i < after.len() && 0 <= j < after.len() && i != j implies #[trigger] after[i].0.name
            != #[trigger] after[j].0.name by {
            if i == after.len() - 1 {
                assert(before[j].0.name == after[j].0.name);
            } else if j == after.len() - 1 {
                assert(before[i].0.name == after[i].0.name);
            }
        }
        self.entries = entries;
    }

    /// Removes the target called `name`; returns whether one was registered.
    pub fn deregister(&mut self, name: &str) -> (r: bool)
        ensures
            r == has_target(old(self)@, name@),
            r ==> exists|i: int|
                0 <= i < old(self)@.len() && old(self)@[i].0.name == name@ && final(self)@ == old(
                    self,
                )@.remove(i),
            !r ==> final(self)@ == old(self)@,
            !has_target(final(self)@, name@),
            names_distinct(final(self)@),
    {
        proof {
            use_type_invariant(&*self);
        }
        let name = name.to_owned();
        match self.position(&name) {
            None => false,
            Some(i) => {
                let mut entries: Vec<(Target, TargetState)> = Vec::new();
                std::mem::swap(&mut entries, &mut self.entries);
                let ghost before = entries_view(entries@);
                assert(before == old(self)@);
                entries.remove(i);
                let ghost after = entries_view(entries@);
                assert(after =~= before.remove(i as int));
                assert forall|k: int| 0 <= k < after.len() implies #[trigger] after[k].0.name
                    != name@ by {
                    if k < i {
                        assert(before[k].0.name != before[i as int].0.name);
                    } else {
                        assert(before[k + 1].0.name != before[i as int].0.name);
                    }
                }
                assert forall|a: int, b: int|
                    0 <= a < after.len() && 0 <= b < after.len() && a != b implies #[trigger] after[a].0.name
                    != #[trigger] after[b].0.name by {
                    let a0 = if a < i { a } else { a + 1 };
                    let b0 = if b < i { b } else { b + 1 };
                    assert(before[a0].0.name != before[b0].0.name);
                }
                self.entries = entries;
                true
            },
        }
    }

    /// Classifies `url`: the first registered target, in registration order,
    /// that recognises it gives the package's identifier and target.
    pub fn try_parse(&self, name: String, url: &WebUrl) -> (r: Option<Package>)
        ensures
            match r {
                Some(p) => p.name == name && classify(self@, url@) == Some(
                    (p.identifier@, p.target@),
                ),
                None => classify(self@, url@) is None,
            },
    {
        let mut i: usize = 0;
        assert(self@.skip(0) =~= self@);
        while i < self.entries.len()
            invariant
                i <= self.entries.len(),
                classify(self@, url@) == classify(self@.skip(i as int), url@),
            decreases self.entries.len() - i,
        {
            let entry = &self.entries[i];
            assert(self@[i as int].0 == entry.0@);
            assert(self@.skip(i as int)[0] == self@[i as int]);
            assert(self@.skip(i as int).drop_first() =~= self@.skip(i + 1));
            match entry.0.try_handle(url) {
                Some(id) => {
                    let p = Package::new(name, id, entry.0.name.clone());
                    return Some(p);
                },
                None => {},
            }
            i += 1;
        }
        assert(self@.skip(i as int) =~= Seq::<EntryView>::empty());
        None
    }

    /// Decides what starring `package` takes, from the state of its target:
    /// nothing is changed.
    pub fn star(&self, package: &Package) -> (r: StarStep)
        ensures
            r == step_for(state_of(self@, package.target@)),
            names_distinct(self@),
    {
        proof {
            use_type_invariant(self);
        }
        match self.position(&package.target) {
            None => StarStep::NoSuchTarget,
            Some(i) => match self.entries[i].1 {
                TargetState::Uninitialized => StarStep::Initialize,
                TargetState::Initialized => StarStep::Star,
                TargetState::Failed => StarStep::Skip,
            },
        }
    }

    /// Records the outcome of initialising the target of `package` and tells
    /// what to do with the package now. An outcome for a target that is not
    /// waiting for initialisation is ignored, so a target is initialised once.
    pub fn record_init(&mut self, package: &Package, ready: bool) -> (r: StarStep)
        ensures
            names_distinct(final(self)@),
            final(self)@ == init_recorded(old(self)@, package.target@, ready),
            state_of(final(self)@, package.target@) == match state_of(
                old(self)@,
                package.target@,
            ) {
                Some(TargetState::Uninitialized) => Some(
                    if ready {
                        TargetState::Initialized
                    } else {
                        TargetState::Failed
                    },
                ),
                other => other,
            },
            r == step_for(state_of(final(self)@, package.target@)),
            r != StarStep::Initialize,
    {
        let ghost name = package.target@;
        proof {
            use_type_invariant(&*self);
            lemma_init_recorded_state(self@, name, ready);
        }
        match self.position(&package.target) {
            None => {
                assert(self@ =~= init_recorded(self@, name, ready));
                StarStep::NoSuchTarget
            },
            Some(i) => {
                match self.entries[i].1 {
                    TargetState::Uninitialized => {
                        let ghost before = self@;
                        let state = if ready {
                            TargetState::Initialized
                        } else {
                            TargetState::Failed
                        };
                        let mut entries: Vec<(Target, TargetState)> = Vec::new();
                        std::mem::swap(&mut entries, &mut self.entries);
                        assert(entries_view(entries@) == before);
                        let (t, _) = entries.remove(i);
                        entries.insert(i, (t, state));
                        assert(entries_view(entries@) =~= init_recorded(before, name, ready)) by {
                            assert forall|k: int| 0 <= k < before.len() && k != i implies
                                before[k].0.name != name by {
                                assert(before[k].0.name != before[i as int].0.name);
                            }
                        }
                        self.entries = entries;
                        if ready {
                            StarStep::Star
                        } else {
                            StarStep::Skip
                        }
                    },
                    TargetState::Initialized => {
                        assert(self@ =~= init_recorded(self@, name, ready));
                        StarStep::Star
                    },
                    TargetState::Failed => {
                        assert(self@ =~= init_recorded(self@, name, ready));
                        StarStep::Skip
                    },
                }
            },
        }
    }
}

/// Recording an initialisation outcome keeps names (hence their distinctness)
/// and moves an uninitialised target to the state the outcome names.
pub proof fn lemma_init_recorded_state(s: Seq<EntryView>, name: Seq<char>, ready: bool)
    requires
        names_distinct(s),
    ensures
        names_distinct(init_recorded(s, name, ready)),
        forall|n: Seq<char>| has_target(init_recorded(s, name, ready), n) == has_target(s, n),
        state_of(init_recorded(s, name, ready), name) == match state_of(s, name) {
            Some(TargetState::Uninitialized) => Some(
                if ready {
                    TargetState::Initialized
                } else {
                    TargetState::Failed
                },
            ),
            other => other,
        },
{
    let t = init_recorded(s, name, ready);
    assert forall|i: int| 0 <= i < s.len() implies #[trigger] t[i].0 == s[i].0 by {}
    assert forall|n: Seq<char>| has_target(t, n) == has_target(s, n) by {
        if has_target(s, n) {
            let i = choose|i: int| 0 <= i < s.len() && #[trigger] s[i].0.name == n;
            assert(t[i].0.name == n);
        }
        if has_target(t, n) {
            let i = choose|i: int| 0 <= i < t.len() && #[trigger] t[i].0.name == n;
            assert(s[i].0.name == n);
        }
    }
    if has_target(s, name) {
        let i = choose|i: int| 0 <= i < s.len() && #[trigger] s[i].0.name == name;
        let j = choose|j: int| 0 <= j < t.len() && #[trigger] t[j].0.name == name;
        assert(s[j].0.name == name);
        assert(i == j);
    }
}

/// Recording an outcome for a target a second time changes nothing.
proof fn lemma_init_recorded_twice(s: Seq<EntryView>, name: Seq<char>, first: bool, second: bool)
    ensures
        init_recorded(init_recorded(s, name, first), name, second) == init_recorded(s, name, first),
{
    let t = init_recorded(s, name, first);
    assert(init_recorded(t, name, second) =~= t);
}

/// A target is initialised at most once: once the outcome of its
/// initialisation is recorded, no later package of it asks for
/// initialisation, and a further outcome is ignored.
pub proof fn lemma_init_at_most_once(s: Seq<EntryView>, name: Seq<char>, first: bool, second: bool)
    requires
        names_distinct(s),
    ensures
        step_for(state_of(init_recorded(s, name, first), name)) != StarStep::Initialize,
        init_recorded(init_recorded(s, name, first), name, second) == init_recorded(s, name, first),
{
    lemma_init_recorded_state(s, name, first);
    lemma_init_recorded_twice(s, name, first, second);
}

/// A target whose initialisation failed stays failed: every later package of
/// it is skipped and never starred, and no outcome recorded later changes it.
pub proof fn lemma_failed_target_contained(s: Seq<EntryView>, name: Seq<char>, ready: bool)
    requires
        names_distinct(s),
        state_of(s, name) == Some(TargetState::Uninitialized),
    ensures
        state_of(init_recorded(s, name, false), name) == Some(TargetState::Failed),
        step_for(state_of(init_recorded(s, name, false), name)) == StarStep::Skip,
        init_recorded(init_recorded(s, name, false), name, ready) == init_recorded(s, name, false),
{
    lemma_init_recorded_state(s, name, false);
    lemma_init_recorded_twice(s, name, false, ready);
}

/// Starring a package whose target was deregistered reports the missing target.
pub proof fn lemma_deregistered_target(s: Seq<EntryView>, i: int)
    requires
        names_distinct(s),
        0 <= i < s.len(),
    ensures
        step_for(state_of(s.remove(i), s[i].0.name)) == StarStep::NoSuchTarget,
{
    let t = s.remove(i);
    if has_target(t, s[i].0.name) {
        let k = choose|k: int| 0 <= k < t.len() && #[trigger] t[k].0.name == s[i].0.name;
        if k < i {
            assert(s[k].0.name != s[i].0.name);
        } else {
            assert(s[k + 1].0.name != s[i].0.name);
        }
    }
}

} // verus!
