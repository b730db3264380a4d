//! The command-line options, as plain values, and what the `disable` option
//! does to the registries.
use vstd::prelude::*;

use crate::location::strings_view;
use crate::source::{has_source, SourceRegistry, SourceView};
use crate::target::{has_target, EntryView, TargetRegistry};

verus! {

/// What the user asked for on the command line.
pub struct Args {
    /// Classify packages but do not star them.
    pub dry_run: bool,
    /// Print nothing.
    pub quiet: bool,
    /// Ignore persisted state such as saved credentials.
    pub ignore_saved: bool,
    /// Names of sources and targets to leave out.
    pub disable: Vec<String>,
}

impl Args {
    /// Removes every source and every target named in `disable` (one name
    /// space for both); all others stay registered.
    pub fn apply_disable(&self, sources: &mut SourceRegistry, targets: &mut TargetRegistry)
        ensures
            forall|k: int|
                0 <= k < self.disable.len() ==> !has_source(
                    final(sources)@,
                    #[trigger] strings_view(self.disable@)[k],
                ) && !has_target(final(targets)@, strings_view(self.disable@)[k]),
            forall|n: Seq<char>|
                !strings_view(self.disable@).contains(n) ==> (has_source(final(sources)@, n)
                    == has_source(old(sources)@, n) && has_target(final(targets)@, n)
                    == has_target(old(targets)@, n)),
    {
        let ghost names = strings_view(self.disable@);
        let mut i: usize = 0;
        while i < self.disable.len()
            invariant
                i <= self.disable.len(),
                names == strings_view(self.disable@),
                forall|k: int|
                    0 <= k < i ==> !has_source(sources@, #[trigger] names[k]) && !has_target(
                        targets@,
                        names[k],
                    ),
                forall|n: Seq<char>|
                    !names.take(i as int).contains(n) ==> (has_source(sources@, n) == has_source(
                        old(sources)@,
                        n,
                    ) && has_target(targets@, n) == has_target(old(targets)@, n)),
            decreases self.disable.len() - i,
        {
            let name = self.disable[i].as_str();
            let ghost s0 = sources@;
            let ghost t0 = targets@;
            sources.deregister(name);
            targets.deregister(name);
            proof {
                assert(name@ == names[i as int]);
                lemma_other_sources_kept(s0, sources@, name@);
                lemma_other_targets_kept(t0, targets@, name@);
                assert forall|n: Seq<char>| !names.take(i + 1).contains(n) implies (has_source(
                    sources@,
                    n,
                ) == has_source(old(sources)@, n) && has_target(targets@, n) == has_target(
                    old(targets)@,
                    n,
                )) by {
                    if names.take(i as int).contains(n) {
                        let k = choose|k: int| 0 <= k < i && names.take(i as int)[k] == n;
                        assert(names.take(i + 1)[k] == n);
                    }
                    if n == name@ {
                        assert(names.take(i + 1)[i as int] == n);
                    }
                }
            }
            i += 1;
        }
        proof {
            assert(names.take(i as int) =~= names);
        }
    }
}

/// Removing the source called `name`, if any, keeps every other name.
proof fn lemma_other_sources_kept(
    before: Seq<SourceView>,
    after: Seq<SourceView>,
    name: Seq<char>,
)
    requires
        after == before || exists|i: int|
            0 <= i < before.len() && before[i].name == name && after == before.remove(i),
    ensures
        forall|n: Seq<char>| n != name ==> has_source(after, n) == has_source(before, n),
        forall|n: Seq<char>| #[trigger] has_source(after, n) ==> has_source(before, n),
{
    if after != before {
        let i = choose|i: int|
            0 <= i < before.len() && before[i].name == name && after == before.remove(i);
        assert forall|n: Seq<char>| n != name implies has_source(after, n) == has_source(
            before,
            n,
        ) by {
            if has_source(before, n) {
                let j = choose|j: int| 0 <= j < before.len() && #[trigger] before[j].name == n;
                if j < i {
                    assert(after[j].name == n);
                } else {
                    assert(after[j - 1].name == n);
                }
            }
            if has_source(after, n) {
                let j = choose|j: int| 0 <= j < after.len() && #[trigger] after[j].name == n;
                if j < i {
                    assert(before[j].name == n);
                } else {
                    assert(before[j + 1].name == n);
                }
            }
        }
        assert forall|n: Seq<char>| #[trigger] has_source(after, n) implies has_source(before, n) by {
            let j = choose|j: int| 0 <= j < after.len() && #[trigger] after[j].name == n;
            if j < i {
                assert(before[j].name == n);
            } else {
                assert(before[j + 1].name == n);
            }
        }
    }
}

/// Removing the target called `name`, if any, keeps every other name.
proof fn lemma_other_targets_kept(
    before: Seq<EntryView>,
    after: Seq<EntryView>,
    name: Seq<char>,
)
    requires
        after == before || exists|i: int|
            0 <= i < before.len() && before[i].0.name == name && after == before.remove(i),
    ensures
        forall|n: Seq<char>| n != name ==> has_target(after, n) == has_target(before, n),
        forall|n: Seq<char>| #[trigger] has_target(after, n) ==> has_target(before, n),
{
    if after != before {
        let i = choose|i: int|
            0 <= i < before.len() && before[i].0.name == name && after == before.remove(i);
        assert forall|n: Seq<char>| n != name implies has_target(after, n) == has_target(
            before,
            n,
        ) by {
            if has_target(before, n) {
                let j = choose|j: int| 0 <= j < before.len() && #[trigger] before[j].0.name == n;
                if j < i {
                    assert(after[j].0.name == n);
                } else {
                    assert(after[j - 1].0.name == n);
                }
            }
            if has_target(after, n) {
                let j = choose|j: int| 0 <= j < after.len() && #[trigger] after[j].0.name == n;
                if j < i {
                    assert(before[j].0.name == n);
                } else {
                    assert(before[j + 1].0.name == n);
                }
            }
        }
        assert forall|n: Seq<char>| #[trigger] has_target(after, n) implies has_target(before, n) by {
            let j = choose|j: int| 0 <= j < after.len() && #[trigger] after[j].0.name == n;
            if j < i {
                assert(before[j].0.name == n);
            } else {
                assert(before[j + 1].0.name == n);
            }
        }
    }
}

} // verus!
