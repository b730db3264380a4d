//! The package managers that sources read: what each one's output says, turned
//! into packages through the target registry.
use vstd::prelude::*;

use crate::location::{parse_url, string_option_view, strings_view, url_parts, UrlView, WebUrl};
use crate::package::{package_option_view, packages_view, Package, PackageView};
use crate::source::{Source, SourceKind, SourceType};
use crate::target::{classify, EntryView, TargetRegistry};
use crate::text::{
    captures_all, captures_view, find_all, lines, lines_of, matches_view, regex_captures,
    regex_matches, split, split_char, split_once, split_once_char,
};

verus! {

/// The package that `s` makes of `name` and the parsed URL `u`, if a target
/// recognises it.
pub open spec fn package_for(s: Seq<EntryView>, name: Seq<char>, u: UrlView) -> Option<PackageView> {
    match classify(s, u) {
        Some((id, target)) => Some(PackageView { name, identifier: id, target }),
        None => None,
    }
}

/// The package that `s` makes of `name` and the URL written `text`, if the
/// text parses and a target recognises it.
pub open spec fn package_at(s: Seq<EntryView>, name: Seq<char>, text: Seq<char>) -> Option<
    PackageView,
> {
    match url_parts(text) {
        Some(u) => package_for(s, name, u),
        None => None,
    }
}

/// The present values of `s`, in order.
pub open spec fn somes<A>(s: Seq<Option<A>>) -> Seq<A>
    decreases s.len(),
{
    if s.len() == 0 {
        Seq::empty()
    } else {
        match s.last() {
            Some(a) => somes(s.drop_last()).push(a),
            None => somes(s.drop_last()),
        }
    }
}

/// The package of the first URL text of `texts` that gives one.
pub open spec fn first_package(s: Seq<EntryView>, name: Seq<char>, texts: Seq<Seq<char>>) -> Option<
    PackageView,
>
    decreases texts.len(),
{
    if texts.len() == 0 {
        None
    } else {
        match package_at(s, name, texts[0]) {
            Some(p) => Some(p),
            None => first_package(s, name, texts.drop_first()),
        }
    }
}

/// The package of the first parsed URL of `urls` that gives one.
pub open spec fn first_url_package(s: Seq<EntryView>, name: Seq<char>, urls: Seq<UrlView>) -> Option<
    PackageView,
>
    decreases urls.len(),
{
    if urls.len() == 0 {
        None
    } else {
        match package_for(s, name, urls[0]) {
            Some(p) => Some(p),
            None => first_url_package(s, name, urls.drop_first()),
        }
    }
}

pub open spec fn urls_view(v: Seq<WebUrl>) -> Seq<UrlView> {
    v.map_values(|u: WebUrl| u@)
}

/// The package that the URL written `text` gives `name`, if any.
fn package_at_text(targets: &TargetRegistry, name: String, text: &str) -> (r: Option<Package>)
    ensures
        package_option_view(r) == package_at(targets@, name@, text@),
{
    match parse_url(text) {
        Some(u) => targets.try_parse(name, &u),
        None => None,
    }
}

/// The package of the first URL text that gives `name` one, in order.
pub fn first_package_of(targets: &TargetRegistry, name: &String, texts: &Vec<String>) -> (r: Option<
    Package,
>)
    ensures
        package_option_view(r) == first_package(targets@, name@, strings_view(texts@)),
{
    let ghost t = strings_view(texts@);
    let mut i: usize = 0;
    assert(t.skip(0) =~= t);
    while i < texts.len()
        invariant
            i <= texts.len(),
            t == strings_view(texts@),
            first_package(targets@, name@, t) == first_package(targets@, name@, t.skip(i as int)),
        decreases texts.len() - i,
    {
        assert(t.skip(i as int)[0] == texts@[i as int]@);
        assert(t.skip(i as int).drop_first() =~= t.skip(i + 1));
        match package_at_text(targets, name.clone(), texts[i].as_str()) {
            Some(p) => {
                return Some(p);
            },
            None => {},
        }
        i += 1;
    }
    assert(t.skip(i as int) =~= Seq::<Seq<char>>::empty());
    None
}

/// The package of the first parsed URL that gives `name` one, in order.
pub fn first_url_package_of(targets: &TargetRegistry, name: &String, urls: &Vec<WebUrl>) -> (r:
    Option<Package>)
    ensures
        package_option_view(r) == first_url_package(targets@, name@, urls_view(urls@)),
{
    let ghost t = urls_view(urls@);
    let mut i: usize = 0;
    assert(t.skip(0) =~= t);
    while i < urls.len()
        invariant
            i <= urls.len(),
            t == urls_view(urls@),
            first_url_package(targets@, name@, t) == first_url_package(
                targets@,
                name@,
                t.skip(i as int),
            ),
        decreases urls.len() - i,
    {
        assert(t.skip(i as int)[0] == urls@[i as int]@);
        assert(t.skip(i as int).drop_first() =~= t.skip(i + 1));
        match targets.try_parse(name.clone(), &urls[i]) {
            Some(p) => {
                return Some(p);
            },
            None => {},
        }
        i += 1;
    }
    assert(t.skip(i as int) =~= Seq::<UrlView>::empty());
    None
}

/// What a line of `dpkg-query` output gives: a package name and its homepage,
/// separated by a tab.
pub open spec fn dpkg_entry(s: Seq<EntryView>, line: Seq<char>) -> Option<PackageView> {
    match split_once_char(line, '\t') {
        Some((name, homepage)) => package_at(s, name, homepage),
        None => None,
    }
}

/// Debian's package database, read with `dpkg-query`.
pub struct Dpkg;

impl Dpkg {
    pub fn name(&self) -> (r: &'static str)
        ensures
            r@ == "dpkg"@,
    {
        "dpkg"
    }

    pub fn source_type(&self) -> (r: SourceType)
        ensures
            r is Global,
    {
        SourceType::Global
    }

    /// This source as the registry sees it.
    pub fn source(&self) -> (r: Source)
        ensures
            r@.name == "dpkg"@,
            r.source_type is Global,
    {
        Source { name: String::from_str("dpkg"), source_type: SourceType::Global }
    }

    /// The packages of `dpkg-query -f '${source:Package}\t${Homepage}\n' -W`
    /// output, in order.
    pub fn packages(output: &str, targets: &TargetRegistry) -> (r: Vec<Package>)
        ensures
            packages_view(r@) == somes(
                lines_of(output@).map_values(|l: Seq<char>| dpkg_entry(targets@, l)),
            ),
    {
        let all = lines(output);
        let ghost entries = lines_of(output@).map_values(|l: Seq<char>| dpkg_entry(targets@, l));
        let mut r: Vec<Package> = Vec::new();
        let mut i: usize = 0;
        while i < all.len()
            invariant
                i <= all.len(),
                strings_view(all@) == lines_of(output@),
                entries == lines_of(output@).map_values(|l: Seq<char>| dpkg_entry(targets@, l)),
                packages_view(r@) == somes(entries.take(i as int)),
            decreases all.len() - i,
        {
            assert(entries.take(i + 1).drop_last() =~= entries.take(i as int));
            assert(entries[i as int] == dpkg_entry(targets@, all@[i as int]@));
            let ghost old_r = r@;
            match split_once(all[i].as_str(), '\t') {
                Some((name, homepage)) => {
                    match package_at_text(targets, name, homepage.as_str()) {
                        Some(p) => {
                            r.push(p);
                            assert(packages_view(r@) =~= packages_view(old_r).push(r@.last()@));
                        },
                        None => {},
                    }
                },
                None => {},
            }
            i += 1;
        }
        assert(entries.take(i as int) =~= entries);
        r
    }
}

/// The record layout that `pacman -Qi`, `yum info` and `zypper info` share:
/// a `Name : ...` line, then later a `URL : ...` line.
pub open spec fn details_pattern() -> Seq<char> {
    "Name +: (.+)[\\s\\S]*?URL +: (.+)"@
}

/// What one record match gives: group 1 is the name, group 2 the URL.
pub open spec fn detail_entry(s: Seq<EntryView>, c: Seq<Option<Seq<char>>>) -> Option<PackageView> {
    if c.len() >= 3 && c[1] is Some && c[2] is Some {
        package_at(s, c[1]->Some_0, c[2]->Some_0)
    } else {
        None
    }
}

/// The packages of the records of a package-information listing, in order.
pub open spec fn detail_packages(s: Seq<EntryView>, text: Seq<char>) -> Seq<PackageView> {
    match regex_captures(details_pattern(), text) {
        Some(caps) => somes(caps.map_values(|c: Seq<Option<Seq<char>>>| detail_entry(s, c))),
        None => Seq::empty(),
    }
}

/// The packages of the records of a package-information listing, in order.
pub fn details_packages(output: &str, targets: &TargetRegistry) -> (r: Vec<Package>)
    ensures
        packages_view(r@) == detail_packages(targets@, output@),
{
    let pattern = "Name +: (.+)[\\s\\S]*?URL +: (.+)";
    let caps = match captures_all(pattern, output) {
        Some(caps) => caps,
        None => {
            return Vec::new();
        },
    };
    let ghost entries = captures_view(caps).map_values(
        |c: Seq<Option<Seq<char>>>| detail_entry(targets@, c),
    );
    let mut r: Vec<Package> = Vec::new();
    let mut i: usize = 0;
    while i < caps.len()
        invariant
            i <= caps.len(),
            entries == captures_view(caps).map_values(
                |c: Seq<Option<Seq<char>>>| detail_entry(targets@, c),
            ),
            packages_view(r@) == somes(entries.take(i as int)),
        decreases caps.len() - i,
    {
        assert(entries.take(i + 1).drop_last() =~= entries.take(i as int));
        let groups = &caps[i];
        assert(entries[i as int] == detail_entry(targets@, captures_view(caps)[i as int]));
        assert(captures_view(caps)[i as int] =~= groups@.map_values(
            |x: Option<String>| string_option_view(x),
        ));
        let ghost old_r = r@;
        if groups.len() >= 3 {
            match (&groups[1], &groups[2]) {
                (Some(name), Some(url)) => {
                    match package_at_text(targets, name.clone(), url.as_str()) {
                        Some(p) => {
                            r.push(p);
                            assert(packages_view(r@) =~= packages_view(old_r).push(r@.last()@));
                        },
                        None => {},
                    }
                },
                _ => {},
            }
        }
        i += 1;
    }
    assert(entries.take(i as int) =~= entries);
    r
}

/// The pattern of an installed package in `zypper -x search -i` output.
pub open spec fn installed_pattern() -> Seq<char> {
    "<solvable status=\"installed\" name=\"([\\w-]+)\""@
}

/// The text of group 1 of a match, if it took part.
pub open spec fn group_one(c: Seq<Option<Seq<char>>>) -> Option<Seq<char>> {
    if c.len() >= 2 {
        c[1]
    } else {
        None
    }
}

/// The names of the installed packages in `zypper -x search -i` output.
pub open spec fn zypper_installed(text: Seq<char>) -> Seq<Seq<char>> {
    match regex_captures(installed_pattern(), text) {
        Some(caps) => somes(caps.map_values(|c: Seq<Option<Seq<char>>>| group_one(c))),
        None => Seq::empty(),
    }
}

/// A version component of a Gentoo atom name.
pub open spec fn version_pattern() -> Seq<char> {
    "-\\d[.\\d]*[a-z]?[^_-]*"@
}

/// The package name of an atom's full name: the text before the last version
/// component, or the whole name if it has none.
pub open spec fn portage_name(fullname: Seq<char>) -> Seq<char> {
    match regex_matches(version_pattern(), fullname) {
        Some(ms) => if ms.len() > 0 {
            ms.last().0
        } else {
            fullname
        },
        None => fullname,
    }
}

/// The `HOMEPAGE="..."` line of an ebuild.
pub open spec fn homepage_pattern() -> Seq<char> {
    "(?m)^HOMEPAGE=\"(.+)\"$"@
}

/// Every text of `texts` parsed as a URL, or `None` if one does not parse.
pub open spec fn parsed_all(texts: Seq<Seq<char>>) -> Option<Seq<UrlView>>
    decreases texts.len(),
{
    if texts.len() == 0 {
        Some(Seq::empty())
    } else {
        match parsed_all(texts.drop_last()) {
            Some(us) => match url_parts(texts.last()) {
                Some(u) => Some(us.push(u)),
                None => None,
            },
            None => None,
        }
    }
}

/// The homepages of an ebuild: the entries of its first `HOMEPAGE` line, if
/// all of them parse.
pub open spec fn ebuild_homepages(ebuild: Seq<char>) -> Option<Seq<UrlView>> {
    match regex_captures(homepage_pattern(), ebuild) {
        Some(caps) => if caps.len() > 0 && caps[0].len() >= 2 && caps[0][1] is Some {
            parsed_all(split_char(caps[0][1]->Some_0, ' '))
        } else {
            None
        },
        None => None,
    }
}

/// Once a prefix of the texts fails to parse, all of them fail.
proof fn lemma_parsed_all_prefix(t: Seq<Seq<char>>, i: int)
    requires
        0 <= i <= t.len(),
        parsed_all(t.take(i)) is None,
    ensures
        parsed_all(t) is None,
    decreases t.len() - i,
{
    if i < t.len() {
        assert(t.take(i + 1).drop_last() =~= t.take(i));
        lemma_parsed_all_prefix(t, i + 1);
    } else {
        assert(t.take(i) =~= t);
    }
}

/// A crate name at the start of a line of `cargo install --list` output.
pub open spec fn crate_line_pattern() -> Seq<char> {
    "(?m)^[a-zA-Z][a-zA-Z0-9-_]*"@
}

/// The crates that `cargo install --list` output lists.
pub open spec fn cargo_installed(text: Seq<char>) -> Seq<Seq<char>> {
    match regex_matches(crate_line_pattern(), text) {
        Some(ms) => ms.map_values(|m: (Seq<char>, Seq<char>)| m.1),
        None => Seq::empty(),
    }
}

/// Arch Linux's package database, read with `pacman -Qi`.
pub struct Pacman;

impl Pacman {
    pub fn name(&self) -> (r: &'static str)
        ensures
            r@ == "pacman"@,
    {
        "pacman"
    }

    pub fn source_type(&self) -> (r: SourceType)
        ensures
            r is Global,
    {
        SourceType::Global
    }

    /// This source as the registry sees it.
    pub fn source(&self) -> (r: Source)
        ensures
            r@.name == "pacman"@,
            r.source_type is Global,
    {
        Source { name: String::from_str("pacman"), source_type: SourceType::Global }
    }

    /// The packages of `pacman -Qi` output, in order.
    pub fn packages(output: &str, targets: &TargetRegistry) -> (r: Vec<Package>)
        ensures
            packages_view(r@) == detail_packages(targets@, output@),
    {
        details_packages(output, targets)
    }
}

/// The RPM database as `yum` (or `dnf`) shows it.
pub struct Yum;

impl Yum {
    pub fn name(&self) -> (r: &'static str)
        ensures
            r@ == "yum"@,
    {
        "yum"
    }

    pub fn source_type(&self) -> (r: SourceType)
        ensures
            r is Global,
    {
        SourceType::Global
    }

    /// This source as the registry sees it.
    pub fn source(&self) -> (r: Source)
        ensures
            r@.name == "yum"@,
            r.source_type is Global,
    {
        Source { name: String::from_str("yum"), source_type: SourceType::Global }
    }

    /// The packages of `yum info installed` output, in order.
    pub fn packages(output: &str, targets: &TargetRegistry) -> (r: Vec<Package>)
        ensures
            packages_view(r@) == detail_packages(targets@, output@),
    {
        details_packages(output, targets)
    }
}

/// openSUSE's package database, read with `zypper`.
pub struct Zypper;

impl Zypper {
    pub fn name(&self) -> (r: &'static str)
        ensures
            r@ == "zypper"@,
    {
        "zypper"
    }

    pub fn source_type(&self) -> (r: SourceType)
        ensures
            r is Global,
    {
        SourceType::Global
    }

    /// This source as the registry sees it.
    pub fn source(&self) -> (r: Source)
        ensures
            r@.name == "zypper"@,
            r.source_type is Global,
    {
        Source { name: String::from_str("zypper"), source_type: SourceType::Global }
    }

    /// The packages of `zypper info` output, in order.
    pub fn packages(output: &str, targets: &TargetRegistry) -> (r: Vec<Package>)
        ensures
            packages_view(r@) == detail_packages(targets@, output@),
    {
        details_packages(output, targets)
    }

    /// The names of the installed packages in `zypper -x search -i` output.
    pub fn installed(output: &str) -> (r: Vec<String>)
        ensures
            strings_view(r@) == zypper_installed(output@),
    {
        let pattern = "<solvable status=\"installed\" name=\"([\\w-]+)\"";
        let caps = match captures_all(pattern, output) {
            Some(caps) => caps,
            None => {
                return Vec::new();
            },
        };
        let ghost names = captures_view(caps).map_values(
            |c: Seq<Option<Seq<char>>>| group_one(c),
        );
        let mut r: Vec<String> = Vec::new();
        let mut i: usize = 0;
        while i < caps.len()
            invariant
                i <= caps.len(),
                names == captures_view(caps).map_values(|c: Seq<Option<Seq<char>>>| group_one(c)),
                strings_view(r@) == somes(names.take(i as int)),
            decreases caps.len() - i,
        {
            assert(names.take(i + 1).drop_last() =~= names.take(i as int));
            let groups = &caps[i];
            assert(captures_view(caps)[i as int] =~= groups@.map_values(
                |x: Option<String>| string_option_view(x),
            ));
            let ghost old_r = r@;
            if groups.len() >= 2 {
                match &groups[1] {
                    Some(name) => {
                        r.push(name.clone());
                        assert(strings_view(r@) =~= strings_view(old_r).push(name@));
                    },
                    None => {},
                }
            }
            i += 1;
        }
        assert(names.take(i as int) =~= names);
        r
    }
}

/// Homebrew, read with `brew info --json=v2 --installed`.
pub struct Homebrew;

impl Homebrew {
    pub fn name(&self) -> (r: &'static str)
        ensures
            r@ == "homebrew"@,
    {
        "homebrew"
    }

    pub fn source_type(&self) -> (r: SourceType)
        ensures
            r is Global,
    {
        SourceType::Global
    }

    /// This source as the registry sees it.
    pub fn source(&self) -> (r: Source)
        ensures
            r@.name == "homebrew"@,
            r.source_type is Global,
    {
        Source { name: String::from_str("homebrew"), source_type: SourceType::Global }
    }

    /// The package of a formula: its homepage, else the first of its release
    /// URLs, that a target recognises.
    pub fn formula_package(
        targets: &TargetRegistry,
        name: &String,
        homepage: &String,
        urls: &Vec<String>,
    ) -> (r: Option<Package>)
        ensures
            package_option_view(r) == first_package(
                targets@,
                name@,
                seq![homepage@] + strings_view(urls@),
            ),
    {
        let mut texts: Vec<String> = Vec::new();
        texts.push(homepage.clone());
        let mut i: usize = 0;
        while i < urls.len()
            invariant
                i <= urls.len(),
                strings_view(texts@) =~= seq![homepage@] + strings_view(urls@).take(i as int),
            decreases urls.len() - i,
        {
            let ghost old_t = texts@;
            texts.push(urls[i].clone());
            assert(strings_view(texts@) =~= strings_view(old_t).push(urls@[i as int]@));
            i += 1;
        }
        assert(strings_view(urls@).take(i as int) =~= strings_view(urls@));
        first_package_of(targets, name, &texts)
    }

    /// The package of a cask: its homepage, else its download URL, that a
    /// target recognises.
    pub fn cask_package(targets: &TargetRegistry, token: &String, homepage: &String, url: &String) -> (r:
        Option<Package>)
        ensures
            package_option_view(r) == first_package(targets@, token@, seq![homepage@, url@]),
    {
        let mut texts: Vec<String> = Vec::new();
        texts.push(homepage.clone());
        texts.push(url.clone());
        assert(strings_view(texts@) =~= seq![homepage@, url@]);
        first_package_of(targets, token, &texts)
    }
}

/// Gentoo's installed-package database, found with `portageq`.
pub struct Portage;

impl Portage {
    pub fn name(&self) -> (r: &'static str)
        ensures
            r@ == "portage"@,
    {
        "portage"
    }

    pub fn source_type(&self) -> (r: SourceType)
        ensures
            r is Global,
    {
        SourceType::Global
    }

    /// This source as the registry sees it.
    pub fn source(&self) -> (r: Source)
        ensures
            r@.name == "portage"@,
            r.source_type is Global,
    {
        Source { name: String::from_str("portage"), source_type: SourceType::Global }
    }

    /// The package name (`PN`) of an installed atom's full name (`PF`): the
    /// text before the last version component, or the whole name.
    pub fn package_name(fullname: &str) -> (r: String)
        ensures
            r@ == portage_name(fullname@),
    {
        let pattern = "-\\d[.\\d]*[a-z]?[^_-]*";
        match find_all(pattern, fullname) {
            Some(found) => {
                if found.len() > 0 {
                    let last = found.len() - 1;
                    assert(matches_view(found)[last as int] == (found@[last as int].0@, found@[last as int].1@));
                    found[last].0.clone()
                } else {
                    fullname.to_owned()
                }
            },
            None => fullname.to_owned(),
        }
    }

    /// The homepages an ebuild declares in its `HOMEPAGE="..."` line, if it
    /// has one and every space-separated entry parses as a URL.
    pub fn homepages(ebuild: &str) -> (r: Option<Vec<WebUrl>>)
        ensures
            match r {
                Some(v) => ebuild_homepages(ebuild@) == Some(urls_view(v@)),
                None => ebuild_homepages(ebuild@) is None,
            },
    {
        let pattern = "(?m)^HOMEPAGE=\"(.+)\"$";
        let caps = match captures_all(pattern, ebuild) {
            Some(caps) => caps,
            None => {
                return None;
            },
        };
        if caps.len() == 0 || caps[0].len() < 2 {
            return None;
        }
        assert(captures_view(caps)[0] =~= caps@[0]@.map_values(
            |x: Option<String>| string_option_view(x),
        ));
        let line = match &caps[0][1] {
            Some(line) => line,
            None => {
                return None;
            },
        };
        let texts = split(line.as_str(), ' ');
        let ghost t = split_char(line@, ' ');
        let mut r: Vec<WebUrl> = Vec::new();
        let mut i: usize = 0;
        assert(t.take(0) =~= Seq::<Seq<char>>::empty());
        assert(urls_view(r@) =~= Seq::<UrlView>::empty());
        assert(captures_view(caps)[0][1] == Some(line@));
        assert(ebuild_homepages(ebuild@) == parsed_all(t));
        while i < texts.len()
            invariant
                i <= texts.len(),
                strings_view(texts@) == t,
                ebuild_homepages(ebuild@) == parsed_all(t),
                parsed_all(t.take(i as int)) == Some(urls_view(r@)),
            decreases texts.len() - i,
        {
            assert(t.take(i + 1).drop_last() =~= t.take(i as int));
            assert(t[i as int] == texts@[i as int]@);
            match parse_url(texts[i].as_str()) {
                Some(u) => {
                    let ghost old_r = r@;
                    r.push(u);
                    assert(urls_view(r@) =~= urls_view(old_r).push(r@.last()@));
                },
                None => {
                    proof {
                        lemma_parsed_all_prefix(t, i + 1);
                    }
                    return None;
                },
            }
            i += 1;
        }
        assert(t.take(i as int) =~= t);
        Some(r)
    }

    /// The package of an installed atom: the first of its ebuild's homepages
    /// that a target recognises.
    pub fn atom_package(fullname: &str, ebuild: &str, targets: &TargetRegistry) -> (r: Option<Package>)
        ensures
            package_option_view(r) == match ebuild_homepages(ebuild@) {
                Some(urls) => first_url_package(targets@, portage_name(fullname@), urls),
                None => None,
            },
    {
        let name = Portage::package_name(fullname);
        match Portage::homepages(ebuild) {
            Some(urls) => first_url_package_of(targets, &name, &urls),
            None => None,
        }
    }
}

/// The crates installed with `cargo install`.
pub struct CargoGlobal;

impl CargoGlobal {
    pub fn name(&self) -> (r: &'static str)
        ensures
            r@ == "cargo(global)"@,
    {
        "cargo(global)"
    }

    pub fn source_type(&self) -> (r: SourceType)
        ensures
            r is Global,
    {
        SourceType::Global
    }

    /// This source as the registry sees it.
    pub fn source(&self) -> (r: Source)
        ensures
            r@.name == "cargo(global)"@,
            r.source_type is Global,
    {
        Source { name: String::from_str("cargo(global)"), source_type: SourceType::Global }
    }

    /// The names of the crates listed by `cargo install --list`: the words
    /// that start a line.
    pub fn installed(output: &str) -> (r: Vec<String>)
        ensures
            strings_view(r@) == cargo_installed(output@),
    {
        let pattern = "(?m)^[a-zA-Z][a-zA-Z0-9-_]*";
        let found = match find_all(pattern, output) {
            Some(found) => found,
            None => {
                return Vec::new();
            },
        };
        let mut r: Vec<String> = Vec::new();
        let mut i: usize = 0;
        while i < found.len()
            invariant
                i <= found.len(),
                strings_view(r@) =~= matches_view(found).take(i as int).map_values(
                    |m: (Seq<char>, Seq<char>)| m.1,
                ),
            decreases found.len() - i,
        {
            let ghost old_r = r@;
            r.push(found[i].1.clone());
            assert(strings_view(r@) =~= strings_view(old_r).push(found@[i as int].1@));
            assert(matches_view(found).take(i + 1) =~= matches_view(found).take(i as int).push(
                matches_view(found)[i as int],
            ));
            i += 1;
        }
        assert(matches_view(found).take(i as int) =~= matches_view(found));
        r
    }
}

/// A dependency entry of a Cargo manifest: a bare version requirement, or a
/// table that may rename the package.
pub enum CrateValue {
    Ver(String),
    Table { name: Option<String> },
}

/// The dependency tables of a Cargo manifest, each as key and entry.
pub struct CargoToml {
    pub dependencies: Vec<(String, CrateValue)>,
    pub dev_dependencies: Vec<(String, CrateValue)>,
    pub build_dependencies: Vec<(String, CrateValue)>,
}

/// The crate a dependency entry names: the renamed package, else the key.
pub open spec fn entry_name(key: Seq<char>, value: CrateValue) -> Seq<char> {
    match value {
        CrateValue::Table { name: Some(n) } => n@,
        _ => key,
    }
}

/// All entries of a manifest: normal, then dev, then build dependencies.
pub open spec fn all_entries(toml: CargoToml) -> Seq<(String, CrateValue)> {
    toml.dependencies@ + toml.dev_dependencies@ + toml.build_dependencies@
}

/// The present texts of the two optional URLs, in order.
pub open spec fn present(a: Option<String>, b: Option<String>) -> Seq<Seq<char>> {
    match (a, b) {
        (Some(a), Some(b)) => seq![a@, b@],
        (Some(a), None) => seq![a@],
        (None, Some(b)) => seq![b@],
        (None, None) => Seq::empty(),
    }
}

/// The crate a dependency entry names: the renamed package, else the key.
pub fn entry_to_name<'a>(key: &'a str, value: &'a CrateValue) -> (r: &'a str)
    ensures
        r@ == entry_name(key@, *value),
{
    match value {
        CrateValue::Table { name: Some(name) } => name.as_str(),
        _ => key,
    }
}

impl CargoToml {
    /// Every dependency entry: normal, then dev, then build dependencies.
    pub fn all_dependencies(&self) -> (r: Vec<(&String, &CrateValue)>)
        ensures
            r@.len() == all_entries(*self).len(),
            forall|i: int|
                0 <= i < r@.len() ==> *(#[trigger] r@[i]).0 == all_entries(*self)[i].0 && *r@[i].1
                    == all_entries(*self)[i].1,
    {
        let mut r: Vec<(&String, &CrateValue)> = Vec::new();
        let ghost all = all_entries(*self);
        let mut t: usize = 0;
        while t < 3
            invariant
                t <= 3,
                all == all_entries(*self),
                r@.len() == if t == 0 {
                    0
                } else if t == 1 {
                    self.dependencies@.len() as int
                } else if t == 2 {
                    self.dependencies@.len() + self.dev_dependencies@.len() as int
                } else {
                    all.len() as int
                },
                forall|i: int|
                    0 <= i < r@.len() ==> *(#[trigger] r@[i]).0 == all[i].0 && *r@[i].1 == all[i].1,
            decreases 3 - t,
        {
            let table = if t == 0 {
                &self.dependencies
            } else if t == 1 {
                &self.dev_dependencies
            } else {
                &self.build_dependencies
            };
            let ghost base = r@.len();
            assert(forall|j: int| 0 <= j < table@.len() ==> all[base + j] == #[trigger] table@[j]);
            let mut j: usize = 0;
            while j < table.len()
                invariant
                    j <= table.len(),
                    r@.len() == base + j,
                    forall|k: int| 0 <= k < table@.len() ==> all[base + k] == #[trigger] table@[k],
                    forall|i: int|
                        0 <= i < r@.len() ==> *(#[trigger] r@[i]).0 == all[i].0 && *r@[i].1
                            == all[i].1,
                decreases table.len() - j,
            {
                let entry = &table[j];
                r.push((&entry.0, &entry.1));
                j += 1;
            }
            t += 1;
        }
        r
    }
}

/// A project's manifest, read by Cargo.
pub struct Cargo;

impl Cargo {
    pub fn name(&self) -> (r: &'static str)
        ensures
            r@ == "cargo"@,
    {
        "cargo"
    }

    /// The file this source reads.
    pub fn manifest() -> (r: &'static str)
        ensures
            r@ == "Cargo.toml"@,
    {
        "Cargo.toml"
    }

    pub fn source_type(&self) -> (r: SourceType)
        ensures
            r@ == SourceKind::Local(seq!["Cargo.toml"@]),
    {
        let mut files: Vec<String> = Vec::new();
        files.push(String::from_str("Cargo.toml"));
        let r = SourceType::Local(files);
        assert(r@ == SourceKind::Local(seq!["Cargo.toml"@])) by {
            assert(strings_view(files@) =~= seq!["Cargo.toml"@]);
        }
        r
    }

    /// This source as the registry sees it.
    pub fn source(&self) -> (r: Source)
        ensures
            r@.name == "cargo"@,
            r@.kind == SourceKind::Local(seq!["Cargo.toml"@]),
    {
        Source { name: String::from_str("cargo"), source_type: self.source_type() }
    }

    /// The crates a manifest depends on, renamed packages by their real name.
    pub fn crate_names(toml: &CargoToml) -> (r: Vec<String>)
        ensures
            r@.len() == all_entries(*toml).len(),
            forall|i: int|
                0 <= i < r@.len() ==> (#[trigger] r@[i])@ == entry_name(
                    all_entries(*toml)[i].0@,
                    all_entries(*toml)[i].1,
                ),
    {
        let deps = toml.all_dependencies();
        let mut r: Vec<String> = Vec::new();
        let mut i: usize = 0;
        while i < deps.len()
            invariant
                i <= deps.len(),
                deps@.len() == all_entries(*toml).len(),
                forall|k: int|
                    0 <= k < deps@.len() ==> *(#[trigger] deps@[k]).0 == all_entries(*toml)[k].0
                        && *deps@[k].1 == all_entries(*toml)[k].1,
                r@.len() == i,
                forall|k: int|
                    0 <= k < i ==> (#[trigger] r@[k])@ == entry_name(
                        all_entries(*toml)[k].0@,
                        all_entries(*toml)[k].1,
                    ),
            decreases deps.len() - i,
        {
            let (key, value) = deps[i];
            let name = entry_to_name(key.as_str(), value);
            r.push(name.to_owned());
            i += 1;
        }
        r
    }

    /// The package of a crate from its registry metadata: its homepage, else
    /// its repository, that a target recognises.
    pub fn crate_package(
        targets: &TargetRegistry,
        name: &String,
        homepage: &Option<String>,
        repository: &Option<String>,
    ) -> (r: Option<Package>)
        ensures
            package_option_view(r) == first_package(
                targets@,
                name@,
                present(*homepage, *repository),
            ),
    {
        let mut texts: Vec<String> = Vec::new();
        match homepage {
            Some(h) => texts.push(h.clone()),
            None => {},
        }
        match repository {
            Some(u) => texts.push(u.clone()),
            None => {},
        }
        assert(strings_view(texts@) =~= present(*homepage, *repository));
        first_package_of(targets, name, &texts)
    }
}

} // verus!
