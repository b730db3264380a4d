//! Package sources: the registry that decides which sources run, and the
//! aggregation of their packages.
use vstd::prelude::*;

use crate::location::strings_view;
use crate::package::Package;

verus! {

/// What a source needs in order to run.
pub enum SourceType {
    /// Enumerates what is installed on the machine; needs no manifest.
    Global,
    /// Reads the named manifest files from the working directory.
    Local(Vec<String>),
}

/// Mathematical model of a [`SourceType`].
pub ghost enum SourceKind {
    Global,
    Local(Seq<Seq<char>>),
}

impl View for SourceType {
    type V = SourceKind;

    open spec fn view(&self) -> SourceKind {
        match self {
            SourceType::Global => SourceKind::Global,
            SourceType::Local(files) => SourceKind::Local(strings_view(files@)),
        }
    }
}

/// A package source as the registry sees it: a unique name and its type.
pub struct Source {
    pub name: String,
    pub source_type: SourceType,
}

/// Mathematical model of a [`Source`].
pub ghost struct SourceView {
    pub name: Seq<char>,
    pub kind: SourceKind,
}

impl View for Source {
    type V = SourceView;

    open spec fn view(&self) -> SourceView {
        SourceView { name: self.name@, kind: self.source_type@ }
    }
}

/// Registry of the available sources, in registration order.
pub struct SourceRegistry {
    sources: Vec<Source>,
}

impl View for SourceRegistry {
    type V = Seq<SourceView>;

    closed spec fn view(&self) -> Seq<SourceView> {
        sources_view(self.sources@)
    }
}

pub open spec fn sources_view(v: Seq<Source>) -> Seq<SourceView> {
    v.map_values(|s: Source| s@)
}

/// No two sources share a name.
pub open spec fn source_names_distinct(s: Seq<SourceView>) -> bool {
    forall|i: int, j: int|
        0 <= i < s.len() && 0 <= j < s.len() && i != j ==> #[trigger] s[i].name
            != #[trigger] s[j].name
}

pub open spec fn has_source(s: Seq<SourceView>, name: Seq<char>) -> bool {
    exists|i: int| 0 <= i < s.len() && #[trigger] s[i].name == name
}

/// The files a source requires: none for a global one.
pub open spec fn files_of(kind: SourceKind) -> Seq<Seq<char>> {
    match kind {
        SourceKind::Global => Seq::empty(),
        SourceKind::Local(files) => files,
    }
}

/// The files that the local sources require, source after source.
pub open spec fn required_files(s: Seq<SourceView>) -> Seq<Seq<char>>
    decreases s.len(),
{
    if s.len() == 0 {
        Seq::empty()
    } else {
        required_files(s.drop_last()) + files_of(s.last().kind)
    }
}

/// Local mode: some file that a local source requires was found.
pub open spec fn local_mode(s: Seq<SourceView>, found: Seq<Seq<char>>) -> bool {
    exists|k: int| 0 <= k < found.len() && required_files(s).contains(#[trigger] found[k])
}

/// Whether a source runs: in global mode every global source does; in local
/// mode every local source whose required files were all found does.
pub open spec fn runs(src: SourceView, local: bool, found: Seq<Seq<char>>) -> bool {
    match src.kind {
        SourceKind::Global => !local,
        SourceKind::Local(files) => local && all_found(files, found),
    }
}

/// Whether every file of `files` is in `found`.
pub open spec fn all_found(files: Seq<Seq<char>>, found: Seq<Seq<char>>) -> bool {
    forall|j: int| 0 <= j < files.len() ==> found.contains(#[trigger] files[j])
}

/// Whether the `i`-th source runs when the files in `found` were found.
pub open spec fn eligible(s: Seq<SourceView>, found: Seq<Seq<char>>, i: int) -> bool {
    runs(s[i], local_mode(s, found), found)
}

/// The packages that the snapshot outcomes contribute, in order: those of
/// each successful snapshot; a failed one contributes none.
pub open spec fn contributed(outcomes: Seq<Result<Vec<Package>, String>>) -> Seq<Package>
    decreases outcomes.len(),
{
    if outcomes.len() == 0 {
        Seq::empty()
    } else {
        contributed(outcomes.drop_last()) + match outcomes.last() {
            Ok(v) => v@,
            Err(_) => Seq::empty(),
        }
    }
}

pub open spec fn has_identifier(s: Seq<Package>, id: Seq<char>) -> bool {
    exists|k: int| 0 <= k < s.len() && #[trigger] s[k].identifier@ == id
}

/// `s` with every package dropped whose identifier an earlier package has.
pub open spec fn unique_by_identifier(s: Seq<Package>) -> Seq<Package>
    decreases s.len(),
{
    if s.len() == 0 {
        Seq::empty()
    } else {
        let kept = unique_by_identifier(s.drop_last());
        if has_identifier(s.drop_last(), s.last().identifier@) {
            kept
        } else {
            kept.push(s.last())
        }
    }
}

/// Whether `v` holds a string equal to `x`.
fn holds(v: &Vec<String>, x: &String) -> (r: bool)
    ensures
        r == strings_view(v@).contains(x@),
{
    let mut i: usize = 0;
    while i < v.len()
        invariant
            i <= v.len(),
            forall|k: int| 0 <= k < i ==> strings_view(v@)[k] != x@,
        decreases v.len() - i,
    {
        if v[i] == *x {
            assert(strings_view(v@)[i as int] == x@);
            return true;
        }
        i += 1;
    }
    false
}

/// Whether every string of `needles` is in `found`.
fn holds_all(needles: &Vec<String>, found: &Vec<String>) -> (r: bool)
    ensures
        r == forall|j: int|
            0 <= j < needles.len() ==> strings_view(found@).contains(
                #[trigger] strings_view(needles@)[j],
            ),
{
    let mut i: usize = 0;
    while i < needles.len()
        invariant
            i <= needles.len(),
            forall|j: int|
                0 <= j < i ==> strings_view(found@).contains(#[trigger] strings_view(needles@)[j]),
        decreases needles.len() - i,
    {
        if !holds(found, &needles[i]) {
            assert(!strings_view(found@).contains(strings_view(needles@)[i as int]));
            return false;
        }
        i += 1;
    }
    true
}

impl SourceRegistry {
    /// Source names are unique.
    #[verifier::type_invariant]
    spec fn inv(&self) -> bool {
        source_names_distinct(self@)
    }

    /// An empty registry.
    pub fn new() -> (r: SourceRegistry)
        ensures
            r@ == Seq::<SourceView>::empty(),
    {
        let r = SourceRegistry { sources: Vec::new() };
        assert(r@ =~= Seq::<SourceView>::empty());
        r
    }

    /// Index of the source called `name`, if any.
    fn position(&self, name: &String) -> (r: Option<usize>)
        ensures
            match r {
                Some(i) => i < self@.len() && self@[i as int].name == name@,
                None => !has_source(self@, name@),
            },
    {
        let mut i: usize = 0;
        while i < self.sources.len()
            invariant
                i <= self.sources.len(),
                forall|k: int| 0 <= k < i ==> #[trigger] self@[k].name != name@,
            decreases self.sources.len() - i,
        {
            if self.sources[i].name == *name {
                return Some(i);
            }
            i += 1;
        }
        None
    }

    /// The `i`-th registered source.
    pub fn get(&self, i: usize) -> (r: &Source)
        requires
            i < self@.len(),
        ensures
            r@ == self@[i as int],
    {
        &self.sources[i]
    }

    /// Whether a source called `name` is registered.
    pub fn contains(&self, name: &str) -> (r: bool)
        ensures
            r == has_source(self@, name@),
    {
        let name = name.to_owned();
        self.position(&name).is_some()
    }

    /// Registers `source` if it is available on this system; an unavailable
    /// source is left out without complaint. Two sources with one name are a
    /// configuration defect: callers must not register a name twice.
    pub fn register(&mut self, source: Source, available: bool)
        requires
            !has_source(old(self)@, source@.name),
        ensures
            available ==> final(self)@ == old(self)@.push(source@),
            !available ==> final(self)@ == old(self)@,
    {
        proof {
            use_type_invariant(&*self);
        }
        if available {
            let ghost v = source@;
            let mut sources: Vec<Source> = Vec::new();
            std::mem::swap(&mut sources, &mut self.sources);
            let ghost before = sources_view(sources@);
            assert(before == old(self)@);
            sources.push(source);
            let ghost after = sources_view(sources@);
            assert(after =~= before.push(v));
            assert forall|i: int, j: int|
                0 <= i < after.len() && 0 <= j < after.len() && i != j implies #[trigger] after[i].name
                != #[trigger] after[j].name by {
                if i == after.len() - 1 {
                    assert(before[j].name == after[j].name);
                } else if j == after.len() - 1 {
                    assert(before[i].name == after[i].name);
                }
            }
            self.sources = sources;
        }
    }

    /// Removes the source called `name`; returns whether one was registered.
    pub fn deregister(&mut self, name: &str) -> (r: bool)
        ensures
            r == has_source(old(self)@, name@),
            r ==> exists|i: int|
                0 <= i < old(self)@.len() && old(self)@[i].name == name@ && final(self)@ == old(
                    self,
                )@.remove(i),
            !r ==> final(self)@ == old(self)@,
            !has_source(final(self)@, name@),
    {
        proof {
            use_type_invariant(&*self);
        }
        let name = name.to_owned();
        match self.position(&name) {
            None => false,
            Some(i) => {
                let mut sources: Vec<Source> = Vec::new();
                std::mem::swap(&mut sources, &mut self.sources);
                let ghost before = sources_view(sources@);
                assert(before == old(self)@);
                sources.remove(i);
                let ghost after = sources_view(sources@);
                assert(after =~= before.remove(i as int));
                proof {
                    lemma_removed_source_gone(before, i as int);
                }
                assert forall|a: int, b: int|
                    0 <= a < after.len() && 0 <= b < after.len() && a != b implies #[trigger] after[a].name
                    != #[trigger] after[b].name by {
                    let a0 = if a < i { a } else { a + 1 };
                    let b0 = if b < i { b } else { b + 1 };
                    assert(before[a0].name != before[b0].name);
                }
                self.sources = sources;
                true
            },
        }
    }
}

impl SourceRegistry {
    /// The files that the local sources require, in registration order: what
    /// the caller tries to read from the working directory.
    pub fn wanted_files(&self) -> (r: Vec<String>)
        ensures
            strings_view(r@) == required_files(self@),
    {
        let mut r: Vec<String> = Vec::new();
        let mut i: usize = 0;
        while i < self.sources.len()
            invariant
                i <= self.sources.len(),
                strings_view(r@) == required_files(self@.take(i as int)),
            decreases self.sources.len() - i,
        {
            let ghost before = r@;
            assert(self@.take(i + 1).drop_last() =~= self@.take(i as int));
            match &self.sources[i].source_type {
                SourceType::Global => {
                    assert(strings_view(r@) =~= required_files(self@.take(i + 1)));
                },
                SourceType::Local(files) => {
                    let mut j: usize = 0;
                    while j < files.len()
                        invariant
                            j <= files.len(),
                            r@.len() == before.len() + j,
                            strings_view(r@) =~= strings_view(before) + strings_view(files@).take(
                                j as int,
                            ),
                        decreases files.len() - j,
                    {
                        let ghost prev = r@;
                        r.push(files[j].clone());
                        assert(strings_view(r@) =~= strings_view(prev).push(files@[j as int]@));
                        assert(strings_view(files@).take(j + 1) =~= strings_view(files@).take(
                            j as int,
                        ).push(files@[j as int]@));
                        j += 1;
                    }
                    assert(strings_view(files@).take(j as int) =~= strings_view(files@));
                    assert(strings_view(r@) =~= required_files(self@.take(i + 1)));
                },
            }
            i += 1;
        }
        assert(self@.take(i as int) =~= self@);
        r
    }

    /// Whether some file in `found` is required by a local source.
    fn in_local_mode(&self, found: &Vec<String>) -> (r: bool)
        ensures
            r == local_mode(self@, strings_view(found@)),
    {
        let wanted = self.wanted_files();
        let mut k: usize = 0;
        while k < found.len()
            invariant
                k <= found.len(),
                strings_view(wanted@) == required_files(self@),
                forall|m: int|
                    0 <= m < k ==> !required_files(self@).contains(
                        #[trigger] strings_view(found@)[m],
                    ),
            decreases found.len() - k,
        {
            if holds(&wanted, &found[k]) {
                assert(required_files(self@).contains(strings_view(found@)[k as int]));
                return true;
            }
            k += 1;
        }
        false
    }

    /// The indices of the sources that run, in registration order, when the
    /// files named in `found` were found in the working directory.
    pub fn plan(&self, found: &Vec<String>) -> (r: Vec<usize>)
        ensures
            forall|k: int|
                0 <= k < r.len() ==> r@[k] < self@.len() && eligible(
                    self@,
                    strings_view(found@),
                    #[trigger] r@[k] as int,
                ),
            forall|k1: int, k2: int| 0 <= k1 < k2 < r.len() ==> r@[k1] < r@[k2],
            forall|i: int|
                0 <= i < self@.len() && eligible(self@, strings_view(found@), i) ==> r@.contains(
                    i as usize,
                ),
    {
        let local = self.in_local_mode(found);
        let ghost f = strings_view(found@);
        let mut r: Vec<usize> = Vec::new();
        let mut i: usize = 0;
        while i < self.sources.len()
            invariant
                i <= self.sources.len(),
                local == local_mode(self@, f),
                f == strings_view(found@),
                forall|k: int|
                    0 <= k < r.len() ==> r@[k] < i && eligible(self@, f, #[trigger] r@[k] as int),
                forall|k1: int, k2: int| 0 <= k1 < k2 < r.len() ==> r@[k1] < r@[k2],
                forall|m: int| 0 <= m < i && eligible(self@, f, m) ==> r@.contains(m as usize),
            decreases self.sources.len() - i,
        {
            let source = &self.sources[i];
            assert(self@[i as int] == source@);
            let run = match &source.source_type {
                SourceType::Global => !local,
                SourceType::Local(files) => {
                    if local {
                        let all = holds_all(files, found);
                        assert(all == all_found(strings_view(files@), f));
                        all
                    } else {
                        false
                    }
                },
            };
            assert(run == eligible(self@, f, i as int));
            let ghost before = r@;
            if run {
                r.push(i);
                assert(r@[r@.len() - 1] == i);
            }
            assert forall|m: int| 0 <= m < i + 1 && eligible(self@, f, m) implies r@.contains(
                m as usize,
            ) by {
                if m < i {
                    let k = choose|k: int| 0 <= k < before.len() && before[k] == m as usize;
                    assert(r@[k] == m as usize);
                } else {
                    assert(r@[r@.len() - 1] == i);
                }
            }
            i += 1;
        }
        r
    }

    /// Merges the outcomes of the snapshots that ran, in order: a failed
    /// snapshot contributes nothing, and of the packages that share an
    /// identifier only the first is kept.
    pub fn aggregate(outcomes: Vec<Result<Vec<Package>, String>>) -> (r: Vec<Package>)
        ensures
            r@ == unique_by_identifier(contributed(outcomes@)),
    {
        let ghost all_outcomes = outcomes@;
        let mut rest = outcomes;
        let mut all: Vec<Package> = Vec::new();
        while rest.len() > 0
            invariant
                rest@.len() <= all_outcomes.len(),
                rest@ =~= all_outcomes.skip(all_outcomes.len() - rest@.len()),
                all@ == contributed(all_outcomes.take(all_outcomes.len() - rest@.len())),
            decreases rest.len(),
        {
            let ghost n = all_outcomes.len() - rest@.len();
            let outcome = rest.remove(0);
            assert(all_outcomes.take(n + 1).drop_last() =~= all_outcomes.take(n));
            assert(all_outcomes.take(n + 1).last() == outcome);
            match outcome {
                Ok(packages) => {
                    let mut packages = packages;
                    all.append(&mut packages);
                },
                Err(_) => {
                    assert(all@ =~= all@ + Seq::<Package>::empty());
                },
            }
            assert(rest@ =~= all_outcomes.skip(n + 1));
        }
        assert(all_outcomes.take(all_outcomes.len() as int) =~= all_outcomes);
        keep_first_by_identifier(all)
    }
}

/// Whether some package of `v` has identifier `id`.
fn identifier_seen(v: &Vec<Package>, id: &String) -> (r: bool)
    ensures
        r == has_identifier(v@, id@),
{
    let mut i: usize = 0;
    while i < v.len()
        invariant
            i <= v.len(),
            forall|k: int| 0 <= k < i ==> #[trigger] v@[k].identifier@ != id@,
        decreases v.len() - i,
    {
        if v[i].identifier == *id {
            assert(v@[i as int].identifier@ == id@);
            return true;
        }
        i += 1;
    }
    false
}

/// Keeps the first package of each identifier, in order.
fn keep_first_by_identifier(items: Vec<Package>) -> (r: Vec<Package>)
    ensures
        r@ == unique_by_identifier(items@),
{
    let ghost all = items@;
    let mut rest = items;
    let mut kept: Vec<Package> = Vec::new();
    while rest.len() > 0
        invariant
            rest@.len() <= all.len(),
            rest@ =~= all.skip(all.len() - rest@.len()),
            kept@ == unique_by_identifier(all.take(all.len() - rest@.len())),
            forall|id: Seq<char>|
                has_identifier(kept@, id) == has_identifier(
                    all.take(all.len() - rest@.len()),
                    id,
                ),
        decreases rest.len(),
    {
        let ghost n = all.len() - rest@.len();
        let ghost before = kept@;
        let p = rest.remove(0);
        let ghost t = all.take(n + 1);
        assert(t.drop_last() =~= all.take(n));
        assert(t.last() == p);
        if !identifier_seen(&kept, &p.identifier) {
            kept.push(p);
        }
        assert forall|id: Seq<char>| has_identifier(kept@, id) == has_identifier(t, id) by {
            if has_identifier(t, id) {
                let k = choose|k: int| 0 <= k < t.len() && #[trigger] t[k].identifier@ == id;
                if k < n {
                    assert(all.take(n)[k].identifier@ == id);
                    assert(has_identifier(before, id));
                    let j = choose|j: int| 0 <= j < before.len() && #[trigger] before[j].identifier@ == id;
                    assert(kept@[j].identifier@ == id);
                } else {
                    if has_identifier(before, p.identifier@) {
                        let j = choose|j: int|
                            0 <= j < before.len() && #[trigger] before[j].identifier@ == p.identifier@;
                        assert(kept@[j].identifier@ == id);
                    } else {
                        assert(kept@[kept@.len() - 1].identifier@ == id);
                    }
                }
            }
            if has_identifier(kept@, id) {
                let j = choose|j: int| 0 <= j < kept@.len() && #[trigger] kept@[j].identifier@ == id;
                if j < before.len() {
                    assert(before[j].identifier@ == id);
                    assert(has_identifier(before, id));
                    assert(has_identifier(all.take(n), id));
                    let k = choose|k: int| 0 <= k < n && #[trigger] all.take(n)[k].identifier@ == id;
                    assert(t[k].identifier@ == id);
                } else {
                    assert(t[n].identifier@ == id);
                }
            }
        }
        assert(rest@ =~= all.skip(n + 1));
    }
    assert(all.take(all.len() as int) =~= all);
    kept
}

/// After the `i`-th source is removed, no source of its name is left.
pub proof fn lemma_removed_source_gone(s: Seq<SourceView>, i: int)
    requires
        source_names_distinct(s),
        0 <= i < s.len(),
    ensures
        !has_source(s.remove(i), s[i].name),
        forall|k: int| 0 <= k < s.remove(i).len() ==> #[trigger] s.remove(i)[k].name != s[i].name,
{
    let t = s.remove(i);
    assert forall|k: int| 0 <= k < t.len() implies #[trigger] t[k].name != s[i].name by {
        if k < i {
            assert(s[k].name != s[i].name);
        } else {
            assert(s[k + 1].name != s[i].name);
        }
    }
}

/// A source that runs is of the mode's kind: in local mode (a file that a
/// local source requires was found) only local sources run, otherwise only
/// global ones.
pub proof fn lemma_mode_exclusive(s: Seq<SourceView>, found: Seq<Seq<char>>, i: int)
    requires
        0 <= i < s.len(),
        eligible(s, found, i),
    ensures
        local_mode(s, found) ==> s[i].kind is Local,
        !local_mode(s, found) ==> s[i].kind is Global,
{
}

/// A local source one of whose required files was not found does not run,
/// whatever the other sources do.
pub proof fn lemma_partial_files_skip(s: Seq<SourceView>, found: Seq<Seq<char>>, i: int, j: int)
    requires
        0 <= i < s.len(),
        s[i].kind is Local,
        0 <= j < files_of(s[i].kind).len(),
        !found.contains(files_of(s[i].kind)[j]),
    ensures
        !eligible(s, found, i),
{
}

/// Once a source is deregistered, none of the sources that run bears its name.
pub proof fn lemma_deregistered_source_never_runs(s: Seq<SourceView>, i: int, found: Seq<Seq<char>>)
    requires
        source_names_distinct(s),
        0 <= i < s.len(),
    ensures
        forall|k: int|
            0 <= k < s.remove(i).len() && eligible(s.remove(i), found, k) ==> #[trigger] s.remove(
                i,
            )[k].name != s[i].name,
{
    lemma_removed_source_gone(s, i);
}

/// De-duplication keeps each identifier exactly once, and what it keeps of an
/// identifier is the first package that has it.
pub proof fn lemma_unique_by_identifier(s: Seq<Package>)
    ensures
        forall|i: int, j: int|
            0 <= i < j < unique_by_identifier(s).len() ==> #[trigger] unique_by_identifier(
                s,
            )[i].identifier@ != #[trigger] unique_by_identifier(s)[j].identifier@,
        forall|id: Seq<char>|
            #[trigger] has_identifier(unique_by_identifier(s), id) == has_identifier(s, id),
        forall|j: int|
            0 <= j < unique_by_identifier(s).len() ==> exists|i: int|
                0 <= i < s.len() && #[trigger] unique_by_identifier(s)[j] == s[i]
                    && !has_identifier(s.take(i), s[i].identifier@),
    decreases s.len(),
{
    if s.len() > 0 {
        let t = s.drop_last();
        lemma_unique_by_identifier(t);
        let d0 = unique_by_identifier(t);
        let d = unique_by_identifier(s);
        let last = s.last();
        assert forall|id: Seq<char>|
            has_identifier(s, id) == (has_identifier(t, id) || last.identifier@ == id) by {
            if has_identifier(s, id) {
                let k = choose|k: int| 0 <= k < s.len() && #[trigger] s[k].identifier@ == id;
                if k < t.len() {
                    assert(t[k].identifier@ == id);
                }
            }
            if has_identifier(t, id) {
                let k = choose|k: int| 0 <= k < t.len() && #[trigger] t[k].identifier@ == id;
                assert(s[k].identifier@ == id);
            }
            if last.identifier@ == id {
                assert(s[s.len() - 1].identifier@ == id);
            }
        }
        assert forall|j: int| 0 <= j < d0.len() implies exists|i: int|
            0 <= i < s.len() && #[trigger] d0[j] == s[i] && !has_identifier(
                s.take(i),
                s[i].identifier@,
            ) by {
            let i = choose|i: int|
                0 <= i < t.len() && #[trigger] d0[j] == t[i] && !has_identifier(
                    t.take(i),
                    t[i].identifier@,
                );
            assert(t.take(i) =~= s.take(i));
            assert(s[i] == t[i]);
        }
        if !has_identifier(t, last.identifier@) {
            assert(d == d0.push(last));
            assert forall|id: Seq<char>|
                #[trigger] has_identifier(d, id) == (has_identifier(d0, id) || last.identifier@
                    == id) by {
                if has_identifier(d, id) {
                    let k = choose|k: int| 0 <= k < d.len() && #[trigger] d[k].identifier@ == id;
                    if k < d0.len() {
                        assert(d0[k].identifier@ == id);
                    }
                }
                if has_identifier(d0, id) {
                    let k = choose|k: int| 0 <= k < d0.len() && #[trigger] d0[k].identifier@ == id;
                    assert(d[k].identifier@ == id);
                }
                if last.identifier@ == id {
                    assert(d[d.len() - 1].identifier@ == id);
                }
            }
            assert forall|i: int, j: int|
                0 <= i < j < d.len() implies #[trigger] d[i].identifier@
                != #[trigger] d[j].identifier@ by {
                if j == d.len() - 1 {
                    if d[i].identifier@ == d[j].identifier@ {
                        assert(d0[i].identifier@ == last.identifier@);
                        assert(has_identifier(d0, last.identifier@));
                    }
                } else {
                    assert(d0[i].identifier@ != d0[j].identifier@);
                }
            }
            assert forall|j: int| 0 <= j < d.len() implies exists|i: int|
                0 <= i < s.len() && #[trigger] d[j] == s[i] && !has_identifier(
                    s.take(i),
                    s[i].identifier@,
                ) by {
                if j == d.len() - 1 {
                    let i = s.len() - 1;
                    assert(s.take(i) =~= t);
                    assert(d[j] == s[i]);
                } else {
                    assert(d[j] == d0[j]);
                }
            }
        }
    }
}

} // verus!
