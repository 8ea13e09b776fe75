use vstd::prelude::*;

use crate::desc::{strip_cr, text_lines, scan_lines, DescKey, PackageDesc};
use crate::text::{char_vec, str_eq, string_from_chars};

verus! {

/// Unicode white space, as `char::is_whitespace` defines it.
pub open spec fn is_ws(c: char) -> bool {
    ||| c == '\t' || c == '\n' || c == '\x0B' || c == '\x0C' || c == '\r' || c == ' '
    ||| c == '\u{85}' || c == '\u{A0}' || c == '\u{1680}'
    ||| 0x2000 <= (c as u32) <= 0x200A
    ||| c == '\u{2028}' || c == '\u{2029}' || c == '\u{202F}' || c == '\u{205F}' || c == '\u{3000}'
}

fn ws(c: char) -> (r: bool)
    ensures
        r == is_ws(c),
{
    c == '\t' || c == '\n' || c == '\x0B' || c == '\x0C' || c == '\r' || c == ' ' || c == '\u{85}'
        || c == '\u{A0}' || c == '\u{1680}' || (0x2000 <= (c as u32) && (c as u32) <= 0x200A)
        || c == '\u{2028}' || c == '\u{2029}' || c == '\u{202F}' || c == '\u{205F}' || c
        == '\u{3000}'
}

pub open spec fn trim_ws_front(l: Seq<char>) -> Seq<char>
    decreases l.len(),
{
    if l.len() > 0 && is_ws(l[0]) {
        trim_ws_front(l.drop_first())
    } else {
        l
    }
}

pub open spec fn trim_ws_back(l: Seq<char>) -> Seq<char>
    decreases l.len(),
{
    if l.len() > 0 && is_ws(l.last()) {
        trim_ws_back(l.drop_last())
    } else {
        l
    }
}

/// The line without leading and trailing white space.
pub open spec fn trim_ws(l: Seq<char>) -> Seq<char> {
    trim_ws_back(trim_ws_front(l))
}

pub open spec fn contains_at(l: Seq<char>, pat: Seq<char>, i: int) -> bool {
    0 <= i && i + pat.len() <= l.len() && l.subrange(i, i + pat.len()) == pat
}

pub open spec fn contains(l: Seq<char>, pat: Seq<char>) -> bool {
    exists|i: int| contains_at(l, pat, i)
}

pub open spec fn ends_with(l: Seq<char>, suf: Seq<char>) -> bool {
    suf.len() <= l.len() && l.subrange(l.len() - suf.len(), l.len() as int) == suf
}

/// A file-listing line names a unit file of the kind that `suf` ends.
pub open spec fn is_unit_line(l: Seq<char>, suf: Seq<char>) -> bool {
    contains(l, "systemd"@) && ends_with(l, suf)
}

/// The trimmed unit lines among `ls`.
pub open spec fn unit_set(ls: Seq<Seq<char>>, suf: Seq<char>) -> Set<Seq<char>>
    decreases ls.len(),
{
    if ls.len() == 0 {
        Set::empty()
    } else if is_unit_line(ls.last(), suf) {
        unit_set(ls.drop_last(), suf).insert(trim_ws(ls.last()))
    } else {
        unit_set(ls.drop_last(), suf)
    }
}

/// The paths of unit files that a file listing names, by suffix.
pub open spec fn unit_paths(files: Seq<char>, suf: Seq<char>) -> Set<Seq<char>> {
    unit_set(text_lines(files), suf)
}

pub open spec fn views(v: Seq<String>) -> Seq<Seq<char>> {
    v.map_values(|s: String| s@)
}

/// `v` holds exactly the members of `s`, each once.
pub open spec fn lists_set(v: Seq<String>, s: Set<Seq<char>>) -> bool {
    &&& views(v).no_duplicates()
    &&& forall|p: Seq<char>| s.contains(p) <==> views(v).contains(p)
}

fn trim_line(line: &Vec<char>) -> (r: Vec<char>)
    ensures
        r@ == trim_ws(line@),
{
    let n = line.len();
    let mut a: usize = 0;
    assert(line@.subrange(0, n as int) =~= line@);
    while a < n && ws(line[a])
        invariant
            a <= n,
            n == line@.len(),
            trim_ws_front(line@) == trim_ws_front(line@.subrange(a as int, n as int)),
        decreases n - a,
    {
        assert(line@.subrange(a as int, n as int).drop_first() =~= line@.subrange(
            a + 1,
            n as int,
        ));
        a = a + 1;
    }
    let ghost front = line@.subrange(a as int, n as int);
    assert(trim_ws_front(line@) == front);
    let mut b: usize = n;
    while b > a && ws(line[b - 1])
        invariant
            a <= b <= n,
            n == line@.len(),
            front == line@.subrange(a as int, n as int),
            trim_ws_back(front) == trim_ws_back(line@.subrange(a as int, b as int)),
        decreases b - a,
    {
        assert(line@.subrange(a as int, b as int).drop_last() =~= line@.subrange(
            a as int,
            b - 1,
        ));
        b = b - 1;
    }
    let mut r: Vec<char> = Vec::new();
    let mut i: usize = a;
    while i < b
        invariant
            a <= i <= b <= n,
            n == line@.len(),
            r@ == line@.subrange(a as int, i as int),
        decreases b - i,
    {
        r.push(line[i]);
        assert(r@ =~= line@.subrange(a as int, i + 1));
        i = i + 1;
    }
    r
}

fn matches_at(l: &Vec<char>, pat: &Vec<char>, i: usize) -> (r: bool)
    requires
        i + pat@.len() <= l@.len(),
    ensures
        r == (l@.subrange(i as int, i + pat@.len()) == pat@),
{
    let n = l.len();
    let mut j: usize = 0;
    while j < pat.len()
        invariant
            n == l@.len(),
            j <= pat@.len(),
            i + pat@.len() <= l@.len(),
            l@.subrange(i as int, i + j) == pat@.take(j as int),
        decreases pat.len() - j,
    {
        assert(i + j < l@.len());
        if l[i + j] != pat[j] {
            assert(l@.subrange(i as int, i + pat@.len())[j as int] != pat@[j as int]);
            return false;
        }
        assert(l@.subrange(i as int, i + j + 1) =~= l@.subrange(i as int, i + j).push(l@[i + j]));
        assert(pat@.take(j + 1) =~= pat@.take(j as int).push(pat@[j as int]));
        j = j + 1;
    }
    assert(pat@.take(pat@.len() as int) =~= pat@);
    true
}

fn line_contains(l: &Vec<char>, pat: &Vec<char>) -> (r: bool)
    ensures
        r == contains(l@, pat@),
{
    if pat.len() > l.len() {
        return false;
    }
    if pat.len() == 0 {
        assert(l@.subrange(0, 0) =~= pat@);
        assert(contains_at(l@, pat@, 0));
        return true;
    }
    let n = l.len();
    let last = n - pat.len();
    let mut i: usize = 0;
    while i <= last
        invariant
            pat@.len() <= l@.len(),
            n == l@.len(),
            pat@.len() > 0,
            last == l@.len() - pat@.len(),
            i <= last + 1,
            forall|k: int| 0 <= k < i ==> !contains_at(l@, pat@, k),
        decreases last + 1 - i,
    {
        if matches_at(l, pat, i) {
            assert(contains_at(l@, pat@, i as int));
            return true;
        }
        i = i + 1;
    }
    assert forall|k: int| !contains_at(l@, pat@, k) by {
        if 0 <= k < i {
        }
    }
    false
}

fn line_ends_with(l: &Vec<char>, suf: &Vec<char>) -> (r: bool)
    ensures
        r == ends_with(l@, suf@),
{
    if suf.len() > l.len() {
        return false;
    }
    matches_at(l, suf, l.len() - suf.len())
}

fn list_contains(v: &Vec<String>, s: &str) -> (r: bool)
    ensures
        r == views(v@).contains(s@),
{
    let mut i: usize = 0;
    while i < v.len()
        invariant
            i <= v@.len(),
            forall|k: int| 0 <= k < i ==> views(v@)[k] != s@,
        decreases v.len() - i,
    {
        if str_eq(v[i].as_str(), s) {
            assert(views(v@)[i as int] == s@);
            return true;
        }
        i = i + 1;
    }
    false
}

/// Adds the trimmed line to `v` when it is a unit line of kind `suf`.
fn add_unit_line(v: &mut Vec<String>, line: &Vec<char>, pat: &Vec<char>, suf: &Vec<char>)
    requires
        pat@ == "systemd"@,
    ensures
        forall|s: Set<Seq<char>>|
            lists_set(old(v)@, s) ==> lists_set(
                final(v)@,
                if is_unit_line(line@, suf@) {
                    s.insert(trim_ws(line@))
                } else {
                    s
                },
            ),
{
    if line_contains(line, pat) && line_ends_with(line, suf) {
        let t = string_from_chars(trim_line(line).as_slice());
        if !list_contains(v, t.as_str()) {
            let ghost before = v@;
            v.push(t);
            assert(views(v@) =~= views(before).push(t@));
            assert forall|p: Seq<char>| views(v@).contains(p) <==> (views(before).contains(p)
                || p == t@) by {
                if views(v@).contains(p) {
                    let k = choose|k: int| 0 <= k < views(v@).len() && views(v@)[k] == p;
                    if k < before.len() {
                        assert(views(before)[k] == p);
                    }
                }
                if views(before).contains(p) {
                    let k = choose|k: int| 0 <= k < views(before).len() && views(before)[k] == p;
                    assert(views(v@)[k] == p);
                }
                if p == t@ {
                    assert(views(v@)[before.len() as int] == p);
                }
            }
        }
    }
}

/// The unit files that one package's file listing names.
pub struct UnitPaths {
    pub services: Vec<String>,
    pub timers: Vec<String>,
}

impl UnitPaths {
    /// True when the listing names no unit file at all.
    pub fn is_empty(&self) -> (r: bool)
        ensures
            r == (self.services@.len() == 0 && self.timers@.len() == 0),
    {
        self.services.len() == 0 && self.timers.len() == 0
    }
}

/// Collects, line by line, the paths in a file listing that contain `systemd`
/// and end in `.service` or `.timer`, trimmed, each once.
pub fn collect_unit_paths(files: &str) -> (r: UnitPaths)
    ensures
        lists_set(r.services@, unit_paths(files@, ".service"@)),
        lists_set(r.timers@, unit_paths(files@, ".timer"@)),
{
    let chars = char_vec(files);
    let pat = char_vec("systemd");
    let service = char_vec(".service");
    let timer = char_vec(".timer");
    let mut services: Vec<String> = Vec::new();
    let mut timers: Vec<String> = Vec::new();
    let mut line: Vec<char> = Vec::new();
    let mut i: usize = 0;
    assert(views(services@) =~= Seq::empty());
    assert(views(timers@) =~= Seq::empty());
    while i < chars.len()
        invariant
            chars@ == files@,
            pat@ == "systemd"@,
            service@ == ".service"@,
            timer@ == ".timer"@,
            i <= chars@.len(),
            scan_lines(chars@.take(i as int)).1 == line@,
            lists_set(services@, unit_set(scan_lines(chars@.take(i as int)).0, ".service"@)),
            lists_set(timers@, unit_set(scan_lines(chars@.take(i as int)).0, ".timer"@)),
        decreases chars.len() - i,
    {
        assert(chars@.take(i + 1).drop_last() =~= chars@.take(i as int));
        let c = chars[i];
        if c == '\n' {
            let n = line.len();
            if n > 0 && line[n - 1] == '\r' {
                let ghost before = line@;
                line.pop();
                assert(line@ =~= strip_cr(before));
            }
            let ghost done = scan_lines(chars@.take(i as int)).0;
            assert(done.push(line@).drop_last() =~= done);
            add_unit_line(&mut services, &line, &pat, &service);
            add_unit_line(&mut timers, &line, &pat, &timer);
            line = Vec::new();
        } else {
            line.push(c);
        }
        i = i + 1;
    }
    assert(chars@.take(chars@.len() as int) =~= chars@);
    let ghost done = scan_lines(chars@).0;
    assert(done.push(line@).drop_last() =~= done);
    add_unit_line(&mut services, &line, &pat, &service);
    add_unit_line(&mut timers, &line, &pat, &timer);
    UnitPaths { services, timers }
}


/// A named set of paths to take out of a package archive.
pub struct TargetSet {
    pub label: String,
    pub paths: Vec<String>,
}

impl UnitPaths {
    /// The two sets to scan a package archive for: `services`, then `timers`.
    pub fn into_targets(self) -> (r: Vec<TargetSet>)
        ensures
            r@.len() == 2,
            r@[0].label@ == "services"@,
            r@[0].paths@ == self.services@,
            r@[1].label@ == "timers"@,
            r@[1].paths@ == self.timers@,
    {
        let mut r: Vec<TargetSet> = Vec::new();
        r.push(TargetSet { label: String::from_str("services"), paths: self.services });
        r.push(TargetSet { label: String::from_str("timers"), paths: self.timers });
        r
    }
}

pub open spec fn in_target(t: TargetSet, p: Seq<char>) -> bool {
    views(t.paths@).contains(p)
}

/// The first set, in the given order, that holds `path`.
pub open spec fn first_target(sets: Seq<TargetSet>, p: Seq<char>) -> Option<int>
    decreases sets.len(),
{
    if sets.len() == 0 {
        None
    } else {
        match first_target(sets.drop_last(), p) {
            Some(i) => Some(i),
            None => if in_target(sets.last(), p) {
                Some(sets.len() - 1)
            } else {
                None
            },
        }
    }
}

/// The index of the first set that holds `path`, if any.
pub fn match_target(sets: &Vec<TargetSet>, path: &str) -> (r: Option<usize>)
    ensures
        match r {
            Some(i) => first_target(sets@, path@) == Some(i as int),
            None => first_target(sets@, path@) is None,
        },
        r is Some ==> r->Some_0 < sets@.len() && in_target(sets@[r->Some_0 as int], path@),
        r is None ==> forall|i: int| 0 <= i < sets@.len() ==> !in_target(#[trigger] sets@[i], path@),
{
    let mut i: usize = 0;
    while i < sets.len()
        invariant
            i <= sets@.len(),
            first_target(sets@.take(i as int), path@) is None,
            forall|k: int| 0 <= k < i ==> !in_target(#[trigger] sets@[k], path@),
        decreases sets.len() - i,
    {
        assert(sets@.take(i + 1).drop_last() =~= sets@.take(i as int));
        if list_contains(&sets[i].paths, path) {
            proof {
                assert(sets@.take(i + 1).last() == sets@[i as int]);
                lemma_first_target_prefix(sets@, path@, i + 1, i as int);
            }
            return Some(i);
        }
        i = i + 1;
    }
    assert(sets@.take(sets@.len() as int) =~= sets@);
    None
}

proof fn lemma_first_target_prefix(sets: Seq<TargetSet>, p: Seq<char>, j: int, x: int)
    requires
        0 <= j <= sets.len(),
        first_target(sets.take(j), p) == Some(x),
    ensures
        first_target(sets, p) == Some(x),
    decreases sets.len() - j,
{
    if j < sets.len() {
        assert(sets.take(j + 1).drop_last() =~= sets.take(j));
        lemma_first_target_prefix(sets, p, j + 1, x);
    } else {
        assert(sets.take(j) =~= sets);
    }
}


/// What `Path::file_name` gives for a path: its last plain component, if any.
pub uninterp spec fn file_name_of(p: Seq<char>) -> Option<Seq<char>>;

/// Relies on `std::path::Path::file_name`; a name taken from a `str` is
/// always valid UTF-8, so `to_str` only converts.
#[verifier::external_body]
fn file_name(path: &str) -> (r: Option<String>)
    ensures
        match r {
            Some(n) => file_name_of(path@) == Some(n@),
            None => file_name_of(path@) is None,
        },
{
    std::path::Path::new(path).file_name().and_then(|n| n.to_str()).map(|n| n.to_owned())
}

/// For an archive entry at `path`: the first set that holds it and the unit
/// file name to record it under. `None` when no set holds it (its content
/// need not be read) or when it has no file name.
pub fn plan_entry(sets: &Vec<TargetSet>, path: &str) -> (r: Option<(usize, String)>)
    ensures
        match first_target(sets@, path@) {
            None => r is None,
            Some(i) => match file_name_of(path@) {
                None => r is None,
                Some(n) => r is Some && r->Some_0.0 as int == i && r->Some_0.1@ == n,
            },
        },
{
    match match_target(sets, path) {
        None => None,
        Some(i) => match file_name(path) {
            None => None,
            Some(n) => Some((i, n)),
        },
    }
}

/// How a unit file name's character appears in a document id.
pub open spec fn id_char(c: char) -> char {
    if c == '@' {
        '_'
    } else if c == '.' {
        '-'
    } else {
        c
    }
}

/// The document id of a unit file: `<package>-<filename>`, with `@` as `_`
/// and `.` as `-` in the file name.
pub open spec fn unit_id_of(package: Seq<char>, filename: Seq<char>) -> Seq<char> {
    package + "-"@ + filename.map_values(|c: char| id_char(c))
}

/// The document id of a unit file of a package.
pub fn unit_id(package: &str, filename: &str) -> (r: String)
    ensures
        r@ == unit_id_of(package@, filename@),
{
    let f = char_vec(filename);
    let mut m: Vec<char> = Vec::new();
    let mut i: usize = 0;
    while i < f.len()
        invariant
            f@ == filename@,
            i <= f@.len(),
            m@ == f@.take(i as int).map_values(|c: char| id_char(c)),
        decreases f.len() - i,
    {
        let c = f[i];
        let d = if c == '@' {
            '_'
        } else if c == '.' {
            '-'
        } else {
            c
        };
        m.push(d);
        assert(f@.take(i + 1).map_values(|c: char| id_char(c)) =~= f@.take(i as int).map_values(
            |c: char| id_char(c),
        ).push(id_char(c)));
        i = i + 1;
    }
    assert(f@.take(f@.len() as int) =~= f@);
    let mut r = String::from_str(package);
    r.append("-");
    let tail = string_from_chars(m.as_slice());
    r.append(tail.as_str());
    r
}

/// A unit file as sent to the index.
pub struct UnitEntry {
    pub id: String,
    pub package: String,
    pub content: String,
    pub filename: String,
    pub repo: String,
}

impl UnitEntry {
    /// The document for unit file `filename` of `package` in `repo`.
    pub fn new(repo: &str, package: &str, filename: String, content: String) -> (r: UnitEntry)
        ensures
            r.id@ == unit_id_of(package@, filename@),
            r.package@ == package@,
            r.content == content,
            r.filename == filename,
            r.repo@ == repo@,
    {
        let id = unit_id(package, filename.as_str());
        UnitEntry {
            id,
            package: package.to_owned(),
            content,
            filename,
            repo: repo.to_owned(),
        }
    }
}

/// Why a package with unit files could not be processed further.
#[derive(Debug, Clone, Copy, PartialEq, Eq, Structural)]
pub enum ProcessError {
    /// The metadata has no single `Filename`, so the archive cannot be found.
    MissingFilename,
    /// The metadata has no single `Name`, so the units cannot be identified.
    MissingName,
}

/// The archive file name and the package name that unit processing needs.
pub fn unit_source(desc: &PackageDesc) -> (r: Result<(String, String), ProcessError>)
    requires
        desc.wf(),
    ensures
        ({
            let has_file = desc@.contains_key(DescKey::Filename) && desc@[DescKey::Filename].len()
                == 1;
            let has_name = desc@.contains_key(DescKey::Name) && desc@[DescKey::Name].len() == 1;
            &&& !has_file ==> r == Err::<(String, String), ProcessError>(
                ProcessError::MissingFilename,
            )
            &&& has_file && !has_name ==> r == Err::<(String, String), ProcessError>(
                ProcessError::MissingName,
            )
            &&& has_file && has_name ==> r is Ok && r->Ok_0.0@ == desc@[DescKey::Filename][0]
                && r->Ok_0.1@ == desc@[DescKey::Name][0]
        }),
{
    let filename = match desc.get_single(DescKey::Filename) {
        Some(f) => f,
        None => {
            return Err(ProcessError::MissingFilename);
        },
    };
    let name = match desc.get_single(DescKey::Name) {
        Some(n) => n,
        None => {
            return Err(ProcessError::MissingName);
        },
    };
    Ok((filename.to_owned(), name.to_owned()))
}

} // verus!
